//! Rendering a proposition and reading the text back gives the same
//! proposition.
use vstd::prelude::*;
use crate::lexer::{
    flush, is_delimiter, is_paren, is_space, is_word_text, lemma_lex_concat, lemma_lex_word, lex,
    lex_from,
};
use crate::parser::{is_binary, is_unary, leaf, parse_at, Failure};
use crate::syntax::{
    binary_text, binary_tokens, close_paren, formula_tokens, kw_entails, kw_not, kw_of_course,
    kw_par, kw_plus, kw_times, kw_why_not, kw_with, open_paren, render_text, unary_text,
    unary_tokens, well_formed, Formula, Proposition,
};

verus! {

proof fn lemma_lex_char(c: char)
    ensures
        is_paren(c) ==> lex(seq![c]) == seq![seq![c]],
        is_space(c) ==> lex(seq![c]) == Seq::<Seq<char>>::empty(),
        !is_delimiter(c) ==> lex(seq![c]) == seq![seq![c]],
{
    let s = seq![c];
    let e = Seq::<char>::empty();
    assert(flush(e) =~= Seq::<Seq<char>>::empty());
    assert(lex_from(s, 1, e) == flush(e));
    if is_paren(c) {
        assert(lex(s) =~= seq![seq![c]]);
    } else if is_space(c) {
        assert(lex(s) =~= Seq::<Seq<char>>::empty());
    } else {
        assert(lex_from(s, 1, e.push(c)) == flush(e.push(c)));
        assert(e.push(c) =~= s);
    }
}

proof fn lemma_keywords_are_words()
    ensures
        is_word_text(kw_not()),
        is_word_text(kw_of_course()),
        is_word_text(kw_why_not()),
        is_word_text(kw_times()),
        is_word_text(kw_plus()),
        is_word_text(kw_with()),
        is_word_text(kw_par()),
        is_word_text(kw_entails()),
{
}

proof fn lemma_lex_unary(op: Seq<char>, p: Seq<char>)
    requires
        op.len() > 0,
        is_word_text(op),
        p.len() > 0,
    ensures
        lex(unary_text(op, p)) == seq![open_paren(), op] + lex(p) + seq![close_paren()],
{
    let z = open_paren() + op;
    let y = z + seq![' '];
    let x = y + p;
    lemma_lex_concat(x, close_paren());
    lemma_lex_concat(y, p);
    lemma_lex_concat(z, seq![' ']);
    lemma_lex_concat(open_paren(), op);
    lemma_lex_word(op);
    lemma_lex_char('(');
    lemma_lex_char(')');
    lemma_lex_char(' ');
    assert(lex(unary_text(op, p)) =~= seq![open_paren(), op] + lex(p) + seq![close_paren()]);
}

proof fn lemma_lex_binary(op: Seq<char>, p: Seq<char>, q: Seq<char>)
    requires
        op.len() > 0,
        is_word_text(op),
        p.len() > 0,
        q.len() > 0,
    ensures
        lex(binary_text(op, p, q)) == seq![open_paren(), op] + lex(p) + lex(q) + seq![
            close_paren(),
        ],
{
    let z = open_paren() + op;
    let y = z + seq![' '];
    let x = y + p;
    let w = x + seq![' '];
    let v = w + q;
    lemma_lex_concat(v, close_paren());
    lemma_lex_concat(w, q);
    lemma_lex_concat(x, seq![' ']);
    lemma_lex_concat(y, p);
    lemma_lex_concat(z, seq![' ']);
    lemma_lex_concat(open_paren(), op);
    lemma_lex_word(op);
    lemma_lex_char('(');
    lemma_lex_char(')');
    lemma_lex_char(' ');
    assert(lex(binary_text(op, p, q)) =~= seq![open_paren(), op] + lex(p) + lex(q) + seq![
        close_paren(),
    ]);
}

/// The text of a well-formed formula is not empty, and reads as its tokens.
pub proof fn lemma_lex_render(f: Formula)
    requires
        well_formed(f),
    ensures
        render_text(f).len() > 0,
        lex(render_text(f)) == formula_tokens(f),
    decreases f,
{
    lemma_keywords_are_words();
    match f {
        Formula::Atom(a) => {
            lemma_lex_word(a);
        },
        Formula::Not(p) => {
            lemma_lex_render(*p);
            lemma_lex_unary(kw_not(), render_text(*p));
        },
        Formula::Times(p, q) => {
            lemma_lex_render(*p);
            lemma_lex_render(*q);
            lemma_lex_binary(kw_times(), render_text(*p), render_text(*q));
        },
        Formula::Plus(p, q) => {
            lemma_lex_render(*p);
            lemma_lex_render(*q);
            lemma_lex_binary(kw_plus(), render_text(*p), render_text(*q));
        },
        Formula::With(p, q) => {
            lemma_lex_render(*p);
            lemma_lex_render(*q);
            lemma_lex_binary(kw_with(), render_text(*p), render_text(*q));
        },
        Formula::Par(p, q) => {
            lemma_lex_render(*p);
            lemma_lex_render(*q);
            lemma_lex_binary(kw_par(), render_text(*p), render_text(*q));
        },
        Formula::OfCourse(p) => {
            lemma_lex_render(*p);
            lemma_lex_unary(kw_of_course(), render_text(*p));
        },
        Formula::WhyNot(p) => {
            lemma_lex_render(*p);
            lemma_lex_unary(kw_why_not(), render_text(*p));
        },
        Formula::Entailment { left, right } => {
            lemma_lex_render(*left);
            lemma_lex_render(*right);
            lemma_lex_binary(kw_entails(), render_text(*left), render_text(*right));
        },
        Formula::One => {
            lemma_lex_char('1');
        },
        Formula::Zero => {
            lemma_lex_char('0');
        },
        Formula::Top => {
            lemma_lex_char('T');
        },
        Formula::Bottom => {
            lemma_lex_char('B');
        },
        Formula::Gamma => {
            lemma_lex_char('G');
        },
        Formula::Delta => {
            lemma_lex_char('D');
        },
    }
}

/// Where the tokens of a unary form stand at `pos` in `t`, so do its parts.
proof fn lemma_unary_parts(op: Seq<char>, tp: Seq<Seq<char>>, t: Seq<Seq<char>>, pos: int)
    requires
        0 <= pos,
        pos + tp.len() + 3 <= t.len(),
        t.subrange(pos, pos + tp.len() + 3) == unary_tokens(op, tp),
    ensures
        t[pos] == open_paren(),
        t[pos + 1] == op,
        t.subrange(pos + 2, pos + 2 + tp.len()) == tp,
        t[pos + 2 + tp.len()] == close_paren(),
{
    let u = unary_tokens(op, tp);
    assert(t[pos] == u[0]);
    assert(t[pos + 1] == u[1]);
    assert(t[pos + 2 + tp.len()] == u[2 + tp.len() as int]);
    assert forall|j: int| 0 <= j < tp.len() implies t[pos + 2 + j] == tp[j] by {
        assert(t[pos + 2 + j] == u[2 + j]);
    }
    assert(t.subrange(pos + 2, pos + 2 + tp.len()) =~= tp);
}

/// Where the tokens of a binary form stand at `pos` in `t`, so do its parts.
proof fn lemma_binary_parts(
    op: Seq<char>,
    tp: Seq<Seq<char>>,
    tq: Seq<Seq<char>>,
    t: Seq<Seq<char>>,
    pos: int,
)
    requires
        0 <= pos,
        pos + tp.len() + tq.len() + 3 <= t.len(),
        t.subrange(pos, pos + tp.len() + tq.len() + 3) == binary_tokens(op, tp, tq),
    ensures
        t[pos] == open_paren(),
        t[pos + 1] == op,
        t.subrange(pos + 2, pos + 2 + tp.len()) == tp,
        t.subrange(pos + 2 + tp.len(), pos + 2 + tp.len() + tq.len()) == tq,
        t[pos + 2 + tp.len() + tq.len()] == close_paren(),
{
    let u = binary_tokens(op, tp, tq);
    let m = pos + 2 + tp.len();
    assert(t[pos] == u[0]);
    assert(t[pos + 1] == u[1]);
    assert(t[m + tq.len()] == u[2 + tp.len() + tq.len() as int]);
    assert forall|j: int| 0 <= j < tp.len() implies t[pos + 2 + j] == tp[j] by {
        assert(t[pos + 2 + j] == u[2 + j]);
    }
    assert forall|j: int| 0 <= j < tq.len() implies t[m + j] == tq[j] by {
        assert(t[m + j] == u[2 + tp.len() + j]);
    }
    assert(t.subrange(pos + 2, m) =~= tp);
    assert(t.subrange(m, m + tq.len()) =~= tq);
}

proof fn lemma_operators()
    ensures
        is_unary(kw_not()) && is_unary(kw_of_course()) && is_unary(kw_why_not()),
        !is_binary(kw_not()) && !is_binary(kw_of_course()) && !is_binary(kw_why_not()),
        is_binary(kw_times()) && is_binary(kw_plus()) && is_binary(kw_with()) && is_binary(kw_par())
            && is_binary(kw_entails()),
        !is_unary(kw_times()) && !is_unary(kw_plus()) && !is_unary(kw_with()) && !is_unary(kw_par())
            && !is_unary(kw_entails()),
        kw_of_course() != kw_not(),
        kw_why_not() != kw_not() && kw_why_not() != kw_of_course(),
        kw_plus() != kw_times(),
        kw_with() != kw_times() && kw_with() != kw_plus(),
        kw_par() != kw_times() && kw_par() != kw_plus() && kw_par() != kw_with(),
        kw_entails() != kw_times() && kw_entails() != kw_plus() && kw_entails() != kw_with()
            && kw_entails() != kw_par(),
        open_paren() != kw_not(),
{
    assert(kw_plus()[0] != kw_with()[0]);
}

/// A well-formed formula whose tokens stand at `pos` in `t` is parsed back
/// from there, and parsing stops right after its last token.
pub proof fn lemma_parse_formula_tokens(f: Formula, t: Seq<Seq<char>>, pos: int)
    requires
        well_formed(f),
        0 <= pos,
        pos + formula_tokens(f).len() <= t.len(),
        t.subrange(pos, pos + formula_tokens(f).len()) == formula_tokens(f),
    ensures
        parse_at(t, pos) == Ok::<(Formula, int), Failure>((f, pos + formula_tokens(f).len())),
    decreases f,
{
    lemma_operators();
    let n = formula_tokens(f).len();
    assert(t[pos] == t.subrange(pos, pos + n)[0]);
    match f {
        Formula::Atom(a) => {
            assert(!is_delimiter(a[0]));
        },
        Formula::Not(p) => {
            lemma_unary_parts(kw_not(), formula_tokens(*p), t, pos);
            lemma_parse_formula_tokens(*p, t, pos + 2);
        },
        Formula::OfCourse(p) => {
            lemma_unary_parts(kw_of_course(), formula_tokens(*p), t, pos);
            lemma_parse_formula_tokens(*p, t, pos + 2);
        },
        Formula::WhyNot(p) => {
            lemma_unary_parts(kw_why_not(), formula_tokens(*p), t, pos);
            lemma_parse_formula_tokens(*p, t, pos + 2);
        },
        Formula::Times(p, q) => {
            lemma_binary_parts(kw_times(), formula_tokens(*p), formula_tokens(*q), t, pos);
            lemma_parse_formula_tokens(*p, t, pos + 2);
            lemma_parse_formula_tokens(*q, t, pos + 2 + formula_tokens(*p).len());
        },
        Formula::Plus(p, q) => {
            lemma_binary_parts(kw_plus(), formula_tokens(*p), formula_tokens(*q), t, pos);
            lemma_parse_formula_tokens(*p, t, pos + 2);
            lemma_parse_formula_tokens(*q, t, pos + 2 + formula_tokens(*p).len());
        },
        Formula::With(p, q) => {
            lemma_binary_parts(kw_with(), formula_tokens(*p), formula_tokens(*q), t, pos);
            lemma_parse_formula_tokens(*p, t, pos + 2);
            lemma_parse_formula_tokens(*q, t, pos + 2 + formula_tokens(*p).len());
        },
        Formula::Par(p, q) => {
            lemma_binary_parts(kw_par(), formula_tokens(*p), formula_tokens(*q), t, pos);
            lemma_parse_formula_tokens(*p, t, pos + 2);
            lemma_parse_formula_tokens(*q, t, pos + 2 + formula_tokens(*p).len());
        },
        Formula::Entailment { left, right } => {
            lemma_binary_parts(
                kw_entails(),
                formula_tokens(*left),
                formula_tokens(*right),
                t,
                pos,
            );
            lemma_parse_formula_tokens(*left, t, pos + 2);
            lemma_parse_formula_tokens(*right, t, pos + 2 + formula_tokens(*left).len());
        },
        _ => {
            assert(n == 1);
            assert(t[pos] == formula_tokens(f)[0]);
            assert(t[pos][0] != open_paren()[0]);
            assert(leaf(t[pos]) == f);
        },
    }
}

/// Rendering a well-formed proposition to text and parsing that text gives
/// the proposition back, having read every token of the text.
pub proof fn lemma_render_parse_round_trip(p: Proposition)
    requires
        well_formed(p@),
    ensures
        parse_at(lex(render_text(p@)), 0) == Ok::<(Formula, int), Failure>(
            (p@, lex(render_text(p@)).len() as int),
        ),
{
    lemma_lex_render(p@);
    let t = formula_tokens(p@);
    assert(t.subrange(0, t.len() as int) =~= t);
    lemma_parse_formula_tokens(p@, t, 0);
}

} // verus!
