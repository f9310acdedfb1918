//! Propositions of linear logic: the tree that parsing builds, its
//! mathematical model, and its rendering back to text.
use vstd::prelude::*;
use crate::lexer::is_word_text;

verus! {

/// A proposition of linear logic. Each compound node owns its children.
#[derive(Debug, PartialEq, Eq)]
pub enum Proposition {
    Atom(String),
    Not(Box<Proposition>),
    Times(Box<Proposition>, Box<Proposition>),
    Plus(Box<Proposition>, Box<Proposition>),
    With(Box<Proposition>, Box<Proposition>),
    Par(Box<Proposition>, Box<Proposition>),
    OfCourse(Box<Proposition>),
    WhyNot(Box<Proposition>),
    One,
    Zero,
    Top,
    Bottom,
    Gamma,
    Delta,
    Entailment { left: Box<Proposition>, right: Box<Proposition> },
}

/// The mathematical value of a [`Proposition`]: the same tree, with each atom
/// name as a sequence of characters.
pub enum Formula {
    Atom(Seq<char>),
    Not(Box<Formula>),
    Times(Box<Formula>, Box<Formula>),
    Plus(Box<Formula>, Box<Formula>),
    With(Box<Formula>, Box<Formula>),
    Par(Box<Formula>, Box<Formula>),
    OfCourse(Box<Formula>),
    WhyNot(Box<Formula>),
    One,
    Zero,
    Top,
    Bottom,
    Gamma,
    Delta,
    Entailment { left: Box<Formula>, right: Box<Formula> },
}

/// The model of `p`.
pub open spec fn formula_of(p: &Proposition) -> Formula
    decreases p,
{
    match p {
        Proposition::Atom(a) => Formula::Atom(a@),
        Proposition::Not(p) => Formula::Not(Box::new(formula_of(p))),
        Proposition::Times(p, q) => Formula::Times(Box::new(formula_of(p)), Box::new(formula_of(q))),
        Proposition::Plus(p, q) => Formula::Plus(Box::new(formula_of(p)), Box::new(formula_of(q))),
        Proposition::With(p, q) => Formula::With(Box::new(formula_of(p)), Box::new(formula_of(q))),
        Proposition::Par(p, q) => Formula::Par(Box::new(formula_of(p)), Box::new(formula_of(q))),
        Proposition::OfCourse(p) => Formula::OfCourse(Box::new(formula_of(p))),
        Proposition::WhyNot(p) => Formula::WhyNot(Box::new(formula_of(p))),
        Proposition::One => Formula::One,
        Proposition::Zero => Formula::Zero,
        Proposition::Top => Formula::Top,
        Proposition::Bottom => Formula::Bottom,
        Proposition::Gamma => Formula::Gamma,
        Proposition::Delta => Formula::Delta,
        Proposition::Entailment { left, right } => Formula::Entailment {
            left: Box::new(formula_of(left)),
            right: Box::new(formula_of(right)),
        },
    }
}

impl View for Proposition {
    type V = Formula;

    open spec fn view(&self) -> Formula {
        formula_of(self)
    }
}

pub open spec fn open_paren() -> Seq<char> {
    seq!['(']
}

pub open spec fn close_paren() -> Seq<char> {
    seq![')']
}

pub open spec fn kw_not() -> Seq<char> {
    seq!['n', 'o', 't']
}

pub open spec fn kw_times() -> Seq<char> {
    seq!['t', 'i', 'm', 'e', 's']
}

pub open spec fn kw_plus() -> Seq<char> {
    seq!['p', 'l', 'u', 's']
}

pub open spec fn kw_with() -> Seq<char> {
    seq!['w', 'i', 't', 'h']
}

pub open spec fn kw_par() -> Seq<char> {
    seq!['p', 'a', 'r']
}

pub open spec fn kw_of_course() -> Seq<char> {
    seq!['o', 'f', '-', 'c', 'o', 'u', 'r', 's', 'e']
}

pub open spec fn kw_why_not() -> Seq<char> {
    seq!['w', 'h', 'y', '-', 'n', 'o', 't']
}

pub open spec fn kw_entails() -> Seq<char> {
    seq!['e', 'n', 't', 'a', 'i', 'l', 's']
}

/// The constant that the token `t` stands for, if any.
pub open spec fn constant_of(t: Seq<char>) -> Option<Formula> {
    if t == seq!['1'] {
        Some(Formula::One)
    } else if t == seq!['0'] {
        Some(Formula::Zero)
    } else if t == seq!['T'] {
        Some(Formula::Top)
    } else if t == seq!['B'] {
        Some(Formula::Bottom)
    } else if t == seq!['G'] {
        Some(Formula::Gamma)
    } else if t == seq!['D'] {
        Some(Formula::Delta)
    } else {
        None
    }
}

/// A name that reads back as the same atom: a non-empty word that is no
/// constant symbol.
pub open spec fn is_atom_name(a: Seq<char>) -> bool {
    a.len() > 0 && is_word_text(a) && constant_of(a) is None
}

/// Every atom of `f` has a name that reads back as the same atom.
pub open spec fn well_formed(f: Formula) -> bool
    decreases f,
{
    match f {
        Formula::Atom(a) => is_atom_name(a),
        Formula::Not(p) => well_formed(*p),
        Formula::Times(p, q) => well_formed(*p) && well_formed(*q),
        Formula::Plus(p, q) => well_formed(*p) && well_formed(*q),
        Formula::With(p, q) => well_formed(*p) && well_formed(*q),
        Formula::Par(p, q) => well_formed(*p) && well_formed(*q),
        Formula::OfCourse(p) => well_formed(*p),
        Formula::WhyNot(p) => well_formed(*p),
        Formula::Entailment { left, right } => well_formed(*left) && well_formed(*right),
        _ => true,
    }
}

/// The token sequence that spells `f` out in prefix form.
pub open spec fn formula_tokens(f: Formula) -> Seq<Seq<char>>
    decreases f,
{
    match f {
        Formula::Atom(a) => seq![a],
        Formula::Not(p) => unary_tokens(kw_not(), formula_tokens(*p)),
        Formula::Times(p, q) => binary_tokens(kw_times(), formula_tokens(*p), formula_tokens(*q)),
        Formula::Plus(p, q) => binary_tokens(kw_plus(), formula_tokens(*p), formula_tokens(*q)),
        Formula::With(p, q) => binary_tokens(kw_with(), formula_tokens(*p), formula_tokens(*q)),
        Formula::Par(p, q) => binary_tokens(kw_par(), formula_tokens(*p), formula_tokens(*q)),
        Formula::OfCourse(p) => unary_tokens(kw_of_course(), formula_tokens(*p)),
        Formula::WhyNot(p) => unary_tokens(kw_why_not(), formula_tokens(*p)),
        Formula::One => seq![seq!['1']],
        Formula::Zero => seq![seq!['0']],
        Formula::Top => seq![seq!['T']],
        Formula::Bottom => seq![seq!['B']],
        Formula::Gamma => seq![seq!['G']],
        Formula::Delta => seq![seq!['D']],
        Formula::Entailment { left, right } => binary_tokens(
            kw_entails(),
            formula_tokens(*left),
            formula_tokens(*right),
        ),
    }
}

pub open spec fn unary_tokens(op: Seq<char>, p: Seq<Seq<char>>) -> Seq<Seq<char>> {
    seq![open_paren(), op] + p + seq![close_paren()]
}

pub open spec fn binary_tokens(op: Seq<char>, p: Seq<Seq<char>>, q: Seq<Seq<char>>) -> Seq<
    Seq<char>,
> {
    seq![open_paren(), op] + p + q + seq![close_paren()]
}

/// The text of `f`: `(op child)` or `(op left right)` for a compound, the
/// constant's symbol, or the atom's name.
pub open spec fn render_text(f: Formula) -> Seq<char>
    decreases f,
{
    match f {
        Formula::Atom(a) => a,
        Formula::Not(p) => unary_text(kw_not(), render_text(*p)),
        Formula::Times(p, q) => binary_text(kw_times(), render_text(*p), render_text(*q)),
        Formula::Plus(p, q) => binary_text(kw_plus(), render_text(*p), render_text(*q)),
        Formula::With(p, q) => binary_text(kw_with(), render_text(*p), render_text(*q)),
        Formula::Par(p, q) => binary_text(kw_par(), render_text(*p), render_text(*q)),
        Formula::OfCourse(p) => unary_text(kw_of_course(), render_text(*p)),
        Formula::WhyNot(p) => unary_text(kw_why_not(), render_text(*p)),
        Formula::One => seq!['1'],
        Formula::Zero => seq!['0'],
        Formula::Top => seq!['T'],
        Formula::Bottom => seq!['B'],
        Formula::Gamma => seq!['G'],
        Formula::Delta => seq!['D'],
        Formula::Entailment { left, right } => binary_text(
            kw_entails(),
            render_text(*left),
            render_text(*right),
        ),
    }
}

pub open spec fn unary_text(op: Seq<char>, p: Seq<char>) -> Seq<char> {
    open_paren() + op + seq![' '] + p + close_paren()
}

pub open spec fn binary_text(op: Seq<char>, p: Seq<char>, q: Seq<char>) -> Seq<char> {
    open_paren() + op + seq![' '] + p + seq![' '] + q + close_paren()
}

fn unary_string(op: &str, p: &str) -> (r: String)
    ensures
        r@ == unary_text(op@, p@),
{
    let mut r = String::from_str("(");
    r.append(op);
    r.append(" ");
    r.append(p);
    r.append(")");
    proof {
        reveal_strlit("(");
        reveal_strlit(" ");
        reveal_strlit(")");
        assert(r@ =~= unary_text(op@, p@));
    }
    r
}

fn binary_string(op: &str, p: &str, q: &str) -> (r: String)
    ensures
        r@ == binary_text(op@, p@, q@),
{
    let mut r = String::from_str("(");
    r.append(op);
    r.append(" ");
    r.append(p);
    r.append(" ");
    r.append(q);
    r.append(")");
    proof {
        reveal_strlit("(");
        reveal_strlit(" ");
        reveal_strlit(")");
        assert(r@ =~= binary_text(op@, p@, q@));
    }
    r
}

fn constant_string(c: &str) -> (r: String)
    ensures
        r@ == c@,
{
    String::from_str(c)
}

impl Proposition {
    /// The text of this proposition in the notation that parsing reads.
    pub fn render(&self) -> (r: String)
        ensures
            r@ == render_text(self@),
        decreases self,
    {
        proof {
            reveal_strlit("not");
            reveal_strlit("times");
            reveal_strlit("plus");
            reveal_strlit("with");
            reveal_strlit("par");
            reveal_strlit("of-course");
            reveal_strlit("why-not");
            reveal_strlit("entails");
            reveal_strlit("1");
            reveal_strlit("0");
            reveal_strlit("T");
            reveal_strlit("B");
            reveal_strlit("G");
            reveal_strlit("D");
        }
        match self {
            Proposition::Atom(a) => a.clone(),
            Proposition::Not(p) => unary_string("not", p.render().as_str()),
            Proposition::Times(p, q) => binary_string("times", p.render().as_str(), q.render().as_str()),
            Proposition::Plus(p, q) => binary_string("plus", p.render().as_str(), q.render().as_str()),
            Proposition::With(p, q) => binary_string("with", p.render().as_str(), q.render().as_str()),
            Proposition::Par(p, q) => binary_string("par", p.render().as_str(), q.render().as_str()),
            Proposition::OfCourse(p) => unary_string("of-course", p.render().as_str()),
            Proposition::WhyNot(p) => unary_string("why-not", p.render().as_str()),
            Proposition::One => constant_string("1"),
            Proposition::Zero => constant_string("0"),
            Proposition::Top => constant_string("T"),
            Proposition::Bottom => constant_string("B"),
            Proposition::Gamma => constant_string("G"),
            Proposition::Delta => constant_string("D"),
            Proposition::Entailment { left, right } => binary_string(
                "entails",
                left.render().as_str(),
                right.render().as_str(),
            ),
        }
    }
}

} // verus!
