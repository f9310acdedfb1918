//! Recursive-descent parsing of a token sequence into a [`Proposition`].
use vstd::prelude::*;
use crate::lexer::{lex, tokenize, tokens_view};
use crate::syntax::{
    close_paren, constant_of, kw_entails, kw_not, kw_of_course, kw_par, kw_plus, kw_times,
    kw_why_not, kw_with, open_paren, Formula, Proposition,
};

verus! {

/// Why a token sequence is not a proposition.
#[derive(Debug, PartialEq, Eq)]
pub enum ParseError {
    /// The tokens ran out where an operand, an operator or a closing
    /// parenthesis was due.
    UnexpectedEndOfInput,
    /// The token after `(` is no operator.
    UnknownOperator(String),
    /// A compound form is followed by this token instead of `)`.
    ExpectedClosingParen(String),
}

/// The mathematical value of a [`ParseError`].
pub enum Failure {
    UnexpectedEndOfInput,
    UnknownOperator(Seq<char>),
    ExpectedClosingParen(Seq<char>),
}

impl View for ParseError {
    type V = Failure;

    open spec fn view(&self) -> Failure {
        match self {
            ParseError::UnexpectedEndOfInput => Failure::UnexpectedEndOfInput,
            ParseError::UnknownOperator(t) => Failure::UnknownOperator(t@),
            ParseError::ExpectedClosingParen(t) => Failure::ExpectedClosingParen(t@),
        }
    }
}

pub open spec fn is_unary(op: Seq<char>) -> bool {
    op == kw_not() || op == kw_of_course() || op == kw_why_not()
}

pub open spec fn is_binary(op: Seq<char>) -> bool {
    op == kw_times() || op == kw_plus() || op == kw_with() || op == kw_par() || op
        == kw_entails()
}

/// The node that the unary operator `op` makes of `p`.
pub open spec fn unary_node(op: Seq<char>, p: Formula) -> Formula {
    if op == kw_not() {
        Formula::Not(Box::new(p))
    } else if op == kw_of_course() {
        Formula::OfCourse(Box::new(p))
    } else {
        Formula::WhyNot(Box::new(p))
    }
}

/// The node that the binary operator `op` makes of `p` and `q`.
pub open spec fn binary_node(op: Seq<char>, p: Formula, q: Formula) -> Formula {
    if op == kw_times() {
        Formula::Times(Box::new(p), Box::new(q))
    } else if op == kw_plus() {
        Formula::Plus(Box::new(p), Box::new(q))
    } else if op == kw_with() {
        Formula::With(Box::new(p), Box::new(q))
    } else if op == kw_par() {
        Formula::Par(Box::new(p), Box::new(q))
    } else {
        Formula::Entailment { left: Box::new(p), right: Box::new(q) }
    }
}

/// A leaf token: a constant symbol, or else an atom named by the token.
pub open spec fn leaf(t: Seq<char>) -> Formula {
    match constant_of(t) {
        Some(c) => c,
        None => Formula::Atom(t),
    }
}

/// The end of compound `f`, whose last operand ends before `i`: token `i`
/// must be `)`.
pub open spec fn close_at(t: Seq<Seq<char>>, i: int, f: Formula) -> Result<
    (Formula, int),
    Failure,
> {
    if 0 <= i < t.len() {
        if t[i] == close_paren() {
            Ok((f, i + 1))
        } else {
            Err(Failure::ExpectedClosingParen(t[i]))
        }
    } else {
        Err(Failure::UnexpectedEndOfInput)
    }
}

/// The proposition that starts at token `pos` of `t`, with the position just
/// after it. The test that the left operand ends after `pos` and within `t`
/// always holds (see `lemma_parse_at_advances`); it only makes plain that the
/// definition terminates.
pub open spec fn parse_at(t: Seq<Seq<char>>, pos: int) -> Result<(Formula, int), Failure>
    decreases t.len() - pos,
{
    if pos < 0 || pos >= t.len() {
        Err(Failure::UnexpectedEndOfInput)
    } else if t[pos] != open_paren() {
        Ok((leaf(t[pos]), pos + 1))
    } else if pos + 1 >= t.len() {
        Err(Failure::UnexpectedEndOfInput)
    } else {
        let op = t[pos + 1];
        if is_unary(op) {
            match parse_at(t, pos + 2) {
                Err(e) => Err(e),
                Ok((p, next)) => close_at(t, next, unary_node(op, p)),
            }
        } else if is_binary(op) {
            match parse_at(t, pos + 2) {
                Err(e) => Err(e),
                Ok((p, mid)) => if pos < mid <= t.len() {
                    match parse_at(t, mid) {
                        Err(e) => Err(e),
                        Ok((q, next)) => close_at(t, next, binary_node(op, p, q)),
                    }
                } else {
                    Err(Failure::UnexpectedEndOfInput)
                },
            }
        } else {
            Err(Failure::UnknownOperator(op))
        }
    }
}

/// A proposition always takes at least one token, and never more than are left.
pub proof fn lemma_parse_at_advances(t: Seq<Seq<char>>, pos: int)
    ensures
        parse_at(t, pos) is Ok ==> pos < parse_at(t, pos)->Ok_0.1 <= t.len(),
    decreases t.len() - pos,
{
    if 0 <= pos && pos + 1 < t.len() && t[pos] == open_paren() {
        lemma_parse_at_advances(t, pos + 2);
        let op = t[pos + 1];
        if is_binary(op) && parse_at(t, pos + 2) is Ok {
            let mid = parse_at(t, pos + 2)->Ok_0.1;
            lemma_parse_at_advances(t, mid);
        }
    }
}

/// The literals that the parser compares tokens with spell the words of the
/// grammar.
proof fn lemma_words()
    ensures
        "("@ == open_paren(),
        ")"@ == close_paren(),
        "not"@ == kw_not(),
        "of-course"@ == kw_of_course(),
        "why-not"@ == kw_why_not(),
        "times"@ == kw_times(),
        "plus"@ == kw_plus(),
        "with"@ == kw_with(),
        "par"@ == kw_par(),
        "entails"@ == kw_entails(),
        "1"@ == seq!['1'],
        "0"@ == seq!['0'],
        "T"@ == seq!['T'],
        "B"@ == seq!['B'],
        "G"@ == seq!['G'],
        "D"@ == seq!['D'],
{
    reveal_strlit("(");
    reveal_strlit(")");
    reveal_strlit("not");
    reveal_strlit("of-course");
    reveal_strlit("why-not");
    reveal_strlit("times");
    reveal_strlit("plus");
    reveal_strlit("with");
    reveal_strlit("par");
    reveal_strlit("entails");
    reveal_strlit("1");
    reveal_strlit("0");
    reveal_strlit("T");
    reveal_strlit("B");
    reveal_strlit("G");
    reveal_strlit("D");
    assert("("@ =~= open_paren());
    assert("not"@ =~= kw_not());
    assert("of-course"@ =~= kw_of_course());
    assert("why-not"@ =~= kw_why_not());
    assert("times"@ =~= kw_times());
    assert("plus"@ =~= kw_plus());
    assert("with"@ =~= kw_with());
    assert("par"@ =~= kw_par());
    assert("entails"@ =~= kw_entails());
    assert("1"@ =~= seq!['1']);
    assert("0"@ =~= seq!['0']);
    assert("T"@ =~= seq!['T']);
    assert("B"@ =~= seq!['B']);
    assert("G"@ =~= seq!['G']);
    assert("D"@ =~= seq!['D']);
}

/// Whether `t` reads as the word `w`.
fn is_word(t: &String, w: &str) -> (r: bool)
    ensures
        r == (t@ == w@),
{
    let s = t.as_str();
    let n = s.unicode_len();
    if n != w.unicode_len() {
        return false;
    }
    let mut i: usize = 0;
    while i < n
        invariant
            n == s@.len() == w@.len(),
            s@ == t@,
            i <= n,
            forall|j: int| 0 <= j < i ==> s@[j] == w@[j],
        decreases n - i,
    {
        if s.get_char(i) != w.get_char(i) {
            return false;
        }
        i = i + 1;
    }
    assert(t@ =~= w@);
    true
}

/// Reads the closing `)` of a compound form at `*pos`, and steps past it.
fn expect_close(tokens: &Vec<String>, pos: &mut usize, f: Proposition) -> (r: Result<
    Proposition,
    ParseError,
>)
    ensures
        match r {
            Ok(p) => close_at(tokens_view(tokens@), *old(pos) as int, f@) == Ok::<
                (Formula, int),
                Failure,
            >((p@, *final(pos) as int)),
            Err(e) => close_at(tokens_view(tokens@), *old(pos) as int, f@) == Err::<
                (Formula, int),
                Failure,
            >(e@),
        },
{
    proof {
        lemma_words();
    }
    if *pos >= tokens.len() {
        return Err(ParseError::UnexpectedEndOfInput);
    }
    let t = &tokens[*pos];
    assert(tokens_view(tokens@)[*pos as int] == t@);
    if is_word(t, ")") {
        *pos = *pos + 1;
        Ok(f)
    } else {
        Err(ParseError::ExpectedClosingParen(t.clone()))
    }
}

/// The leaf that token `t` stands for.
fn leaf_of(t: &String) -> (r: Proposition)
    ensures
        r@ == leaf(t@),
{
    proof {
        lemma_words();
    }
    if is_word(t, "1") {
        Proposition::One
    } else if is_word(t, "0") {
        Proposition::Zero
    } else if is_word(t, "T") {
        Proposition::Top
    } else if is_word(t, "B") {
        Proposition::Bottom
    } else if is_word(t, "G") {
        Proposition::Gamma
    } else if is_word(t, "D") {
        Proposition::Delta
    } else {
        Proposition::Atom(t.clone())
    }
}

/// Whether `op` names a unary operator.
fn is_unary_op(op: &String) -> (r: bool)
    ensures
        r == is_unary(op@),
{
    proof {
        lemma_words();
    }
    is_word(op, "not") || is_word(op, "of-course") || is_word(op, "why-not")
}

/// Whether `op` names a binary operator.
fn is_binary_op(op: &String) -> (r: bool)
    ensures
        r == is_binary(op@),
{
    proof {
        lemma_words();
    }
    is_word(op, "times") || is_word(op, "plus") || is_word(op, "with") || is_word(op, "par")
        || is_word(op, "entails")
}

fn unary_of(op: &String, p: Proposition) -> (r: Proposition)
    requires
        is_unary(op@),
    ensures
        r@ == unary_node(op@, p@),
{
    proof {
        lemma_words();
    }
    if is_word(op, "not") {
        Proposition::Not(Box::new(p))
    } else if is_word(op, "of-course") {
        Proposition::OfCourse(Box::new(p))
    } else {
        Proposition::WhyNot(Box::new(p))
    }
}

fn binary_of(op: &String, p: Proposition, q: Proposition) -> (r: Proposition)
    requires
        is_binary(op@),
    ensures
        r@ == binary_node(op@, p@, q@),
{
    proof {
        lemma_words();
    }
    if is_word(op, "times") {
        Proposition::Times(Box::new(p), Box::new(q))
    } else if is_word(op, "plus") {
        Proposition::Plus(Box::new(p), Box::new(q))
    } else if is_word(op, "with") {
        Proposition::With(Box::new(p), Box::new(q))
    } else if is_word(op, "par") {
        Proposition::Par(Box::new(p), Box::new(q))
    } else {
        Proposition::Entailment { left: Box::new(p), right: Box::new(q) }
    }
}

/// Parses one proposition from `tokens`, starting at `*pos` and leaving
/// `*pos` just after it. A compound form must end with `)`; a `)` or an
/// operator word in operand position is read as an atom. Tokens after the
/// proposition are left alone.
pub fn parse(tokens: &Vec<String>, pos: &mut usize) -> (r: Result<Proposition, ParseError>)
    ensures
        match r {
            Ok(p) => parse_at(tokens_view(tokens@), *old(pos) as int) == Ok::<
                (Formula, int),
                Failure,
            >((p@, *final(pos) as int)),
            Err(e) => parse_at(tokens_view(tokens@), *old(pos) as int) == Err::<
                (Formula, int),
                Failure,
            >(e@),
        },
    decreases tokens@.len() - *old(pos),
{
    let ghost t = tokens_view(tokens@);
    let ghost start = *pos as int;
    proof {
        lemma_words();
    }
    if *pos >= tokens.len() {
        return Err(ParseError::UnexpectedEndOfInput);
    }
    let token = &tokens[*pos];
    assert(t[start] == token@);
    *pos = *pos + 1;
    if !is_word(token, "(") {
        return Ok(leaf_of(token));
    }
    if *pos >= tokens.len() {
        return Err(ParseError::UnexpectedEndOfInput);
    }
    let op = &tokens[*pos];
    assert(t[start + 1] == op@);
    *pos = *pos + 1;
    if is_unary_op(op) {
        let p = match parse(tokens, pos) {
            Ok(p) => p,
            Err(e) => return Err(e),
        };
        expect_close(tokens, pos, unary_of(op, p))
    } else if is_binary_op(op) {
        let p = match parse(tokens, pos) {
            Ok(p) => p,
            Err(e) => return Err(e),
        };
        proof {
            lemma_parse_at_advances(t, start + 2);
        }
        let q = match parse(tokens, pos) {
            Ok(q) => q,
            Err(e) => return Err(e),
        };
        expect_close(tokens, pos, binary_of(op, p, q))
    } else {
        Err(ParseError::UnknownOperator(op.clone()))
    }
}

/// Tokenizes `input` and parses the proposition at its start.
pub fn parse_str(input: &str) -> (r: Result<Proposition, ParseError>)
    ensures
        match r {
            Ok(p) => parse_at(lex(input@), 0) is Ok && parse_at(lex(input@), 0)->Ok_0.0 == p@,
            Err(e) => parse_at(lex(input@), 0) == Err::<(Formula, int), Failure>(e@),
        },
{
    let tokens = tokenize(input);
    let mut pos: usize = 0;
    parse(&tokens, &mut pos)
}

} // verus!
