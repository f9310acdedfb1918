//! Splitting text into tokens: parentheses stand alone, and runs of
//! whitespace separate the other tokens.
use vstd::prelude::*;

verus! {

/// The characters that `char::is_whitespace` accepts: those with the Unicode
/// `White_Space` property.
pub open spec fn is_space(c: char) -> bool {
    ('\u{9}' <= c && c <= '\u{d}') || c == ' ' || c == '\u{85}' || c == '\u{a0}'
        || c == '\u{1680}' || ('\u{2000}' <= c && c <= '\u{200a}') || c == '\u{2028}'
        || c == '\u{2029}' || c == '\u{202f}' || c == '\u{205f}' || c == '\u{3000}'
}

pub open spec fn is_paren(c: char) -> bool {
    c == '(' || c == ')'
}

/// A character that ends the word before it.
pub open spec fn is_delimiter(c: char) -> bool {
    is_space(c) || is_paren(c)
}

/// The word gathered so far, as a token if it is not empty.
pub open spec fn flush(word: Seq<char>) -> Seq<Seq<char>> {
    if word.len() == 0 {
        Seq::empty()
    } else {
        seq![word]
    }
}

/// The tokens of `s` from position `i` on, where `word` holds the characters
/// of the current word read before `i`.
pub open spec fn lex_from(s: Seq<char>, i: int, word: Seq<char>) -> Seq<Seq<char>>
    decreases s.len() - i,
{
    if i < 0 || i >= s.len() {
        flush(word)
    } else if is_paren(s[i]) {
        flush(word) + seq![seq![s[i]]] + lex_from(s, i + 1, Seq::empty())
    } else if is_space(s[i]) {
        flush(word) + lex_from(s, i + 1, Seq::empty())
    } else {
        lex_from(s, i + 1, word.push(s[i]))
    }
}

/// The tokens of `s`, left to right.
pub open spec fn lex(s: Seq<char>) -> Seq<Seq<char>> {
    lex_from(s, 0, Seq::empty())
}

pub open spec fn tokens_view(v: Seq<String>) -> Seq<Seq<char>> {
    v.map_values(|t: String| t@)
}

/// A word: characters with no delimiter among them.
pub open spec fn is_word_text(a: Seq<char>) -> bool {
    forall|j: int| 0 <= j < a.len() ==> !is_delimiter(#[trigger] a[j])
}

/// Reading a suffix of `a + b` at an offset of `|a|` reads `b`.
proof fn lemma_lex_shift(a: Seq<char>, b: Seq<char>, j: int, word: Seq<char>)
    requires
        0 <= j <= b.len(),
    ensures
        lex_from(a + b, a.len() + j, word) == lex_from(b, j, word),
    decreases b.len() - j,
{
    if j < b.len() {
        assert((a + b)[a.len() + j] == b[j]);
        lemma_lex_shift(a, b, j + 1, Seq::empty());
        lemma_lex_shift(a, b, j + 1, word.push(b[j]));
    }
}

proof fn lemma_lex_concat_from(s1: Seq<char>, s2: Seq<char>, i: int, word: Seq<char>)
    requires
        0 <= i <= s1.len(),
        (s2.len() > 0 && is_delimiter(s2[0])) || (s1.len() > 0 && is_delimiter(s1.last()) && (i
            < s1.len() || word.len() == 0)),
    ensures
        lex_from(s1 + s2, i, word) == lex_from(s1, i, word) + lex(s2),
    decreases s1.len() - i,
{
    if i == s1.len() {
        lemma_lex_shift(s1, s2, 0, word);
        assert(lex_from(s1 + s2, i, word) == lex_from(s2, 0, word));
        assert(lex_from(s1, i, word) == flush(word));
        if word.len() == 0 {
            assert(word =~= Seq::<char>::empty());
            assert(flush(word) + lex(s2) =~= lex(s2));
        } else {
            let e = Seq::<char>::empty();
            assert(lex(s2) == lex_from(s2, 0, e));
            if is_paren(s2[0]) {
                assert(lex_from(s2, 0, e) == flush(e) + seq![seq![s2[0]]] + lex_from(s2, 1, e));
                assert(lex_from(s2, 0, word) == flush(word) + seq![seq![s2[0]]] + lex_from(s2, 1, e));
            } else {
                assert(lex_from(s2, 0, e) == flush(e) + lex_from(s2, 1, e));
                assert(lex_from(s2, 0, word) == flush(word) + lex_from(s2, 1, e));
            }
            assert(flush(e) =~= Seq::<Seq<char>>::empty());
            assert(lex_from(s2, 0, word) =~= flush(word) + lex(s2));
        }
    } else {
        let c = s1[i];
        assert((s1 + s2)[i] == c);
        lemma_lex_concat_from(s1, s2, i + 1, Seq::empty());
        if !is_delimiter(c) {
            lemma_lex_concat_from(s1, s2, i + 1, word.push(c));
            assert(lex_from(s1 + s2, i, word) == lex_from(s1 + s2, i + 1, word.push(c)));
            assert(lex_from(s1, i, word) == lex_from(s1, i + 1, word.push(c)));
        } else if is_paren(c) {
            assert(lex_from(s1 + s2, i, word) =~= lex_from(s1, i, word) + lex(s2));
        } else {
            assert(lex_from(s1 + s2, i, word) =~= lex_from(s1, i, word) + lex(s2));
        }
    }
}

/// Text cut where a delimiter stands on either side splits into the tokens
/// of each part.
pub proof fn lemma_lex_concat(s1: Seq<char>, s2: Seq<char>)
    requires
        (s2.len() > 0 && is_delimiter(s2[0])) || (s1.len() > 0 && is_delimiter(s1.last())),
    ensures
        lex(s1 + s2) == lex(s1) + lex(s2),
{
    lemma_lex_concat_from(s1, s2, 0, Seq::empty());
}

proof fn lemma_lex_word_from(a: Seq<char>, i: int, word: Seq<char>)
    requires
        0 <= i <= a.len(),
        is_word_text(a),
    ensures
        lex_from(a, i, word) == flush(word + a.subrange(i, a.len() as int)),
    decreases a.len() - i,
{
    if i < a.len() {
        lemma_lex_word_from(a, i + 1, word.push(a[i]));
        assert(word.push(a[i]) + a.subrange(i + 1, a.len() as int) =~= word + a.subrange(
            i,
            a.len() as int,
        ));
    } else {
        assert(word + a.subrange(i, a.len() as int) =~= word);
    }
}

/// A non-empty word is a single token.
pub proof fn lemma_lex_word(a: Seq<char>)
    requires
        a.len() > 0,
        is_word_text(a),
    ensures
        lex(a) == seq![a],
{
    lemma_lex_word_from(a, 0, Seq::empty());
    assert(Seq::<char>::empty() + a.subrange(0, a.len() as int) =~= a);
}

/// `char::is_whitespace`, written out.
pub fn is_space_char(c: char) -> (r: bool)
    ensures
        r == is_space(c),
{
    ('\u{9}' <= c && c <= '\u{d}') || c == ' ' || c == '\u{85}' || c == '\u{a0}'
        || c == '\u{1680}' || ('\u{2000}' <= c && c <= '\u{200a}') || c == '\u{2028}'
        || c == '\u{2029}' || c == '\u{202f}' || c == '\u{205f}' || c == '\u{3000}'
}

/// Splits `input` into tokens: each `(` and `)` is a token of its own, and
/// the rest is cut at runs of whitespace, with no empty token kept.
pub fn tokenize(input: &str) -> (r: Vec<String>)
    ensures
        tokens_view(r@) == lex(input@),
{
    let n = input.unicode_len();
    let mut tokens: Vec<String> = Vec::new();
    let mut start: usize = 0;
    let mut i: usize = 0;
    assert(input@.subrange(0, 0) =~= Seq::<char>::empty());
    while i < n
        invariant
            n == input@.len(),
            start <= i <= n,
            tokens_view(tokens@) + lex_from(input@, i as int, input@.subrange(start as int, i as int))
                == lex(input@),
        decreases n - i,
    {
        let c = input.get_char(i);
        let ghost word = input@.subrange(start as int, i as int);
        let ghost old_tokens = tokens_view(tokens@);
        assert(input@.subrange(i + 1, i + 1) =~= Seq::<char>::empty());
        if c == '(' || c == ')' || is_space_char(c) {
            let ghost before = tokens_view(tokens@);
            if start < i {
                let word = input.substring_char(start, i);
                tokens.push(String::from_str(word));
            }
            assert(tokens_view(tokens@) =~= before + flush(word));
            if c == '(' || c == ')' {
                let ghost mid = tokens_view(tokens@);
                let paren = input.substring_char(i, i + 1);
                assert(paren@ =~= seq![c]);
                tokens.push(String::from_str(paren));
                assert(tokens_view(tokens@) =~= mid + seq![seq![c]]);
                assert(old_tokens + lex_from(input@, i as int, word) =~= tokens_view(tokens@)
                    + lex_from(input@, i + 1, Seq::empty()));
            } else {
                assert(old_tokens + lex_from(input@, i as int, word) =~= tokens_view(tokens@)
                    + lex_from(input@, i + 1, Seq::empty()));
            }
            start = i + 1;
        } else {
            assert(input@.subrange(start as int, i + 1) =~= word.push(c));
        }
        i = i + 1;
    }
    let ghost before = tokens_view(tokens@);
    if start < n {
        tokens.push(String::from_str(input.substring_char(start, n)));
    }
    assert(tokens_view(tokens@) =~= before + flush(input@.subrange(start as int, n as int)));
    tokens
}

} // verus!
