use linear_logic::lexer::tokenize;
use linear_logic::parser::{parse, parse_str, ParseError};
use linear_logic::syntax::Proposition;

fn atom(name: &str) -> Box<Proposition> {
    Box::new(Proposition::Atom(name.to_string()))
}

fn words(list: &[&str]) -> Vec<String> {
    list.iter().map(|s| s.to_string()).collect()
}

#[test]
fn tokenize_times() {
    assert_eq!(tokenize("(times A B)"), words(&["(", "times", "A", "B", ")"]));
}

#[test]
fn tokenize_parens_without_spaces_and_newlines() {
    assert_eq!(
        tokenize("(not(with A\n\tB))"),
        words(&["(", "not", "(", "with", "A", "B", ")", ")"])
    );
}

#[test]
fn tokenize_empty_and_blank() {
    assert_eq!(tokenize(""), Vec::<String>::new());
    assert_eq!(tokenize("  \n\t "), Vec::<String>::new());
}

#[test]
fn tokenize_unicode_whitespace() {
    assert_eq!(tokenize("a\u{3000}b\u{a0}c"), words(&["a", "b", "c"]));
}

#[test]
fn parse_times() {
    // `B` is the constant Bottom wherever it stands.
    assert_eq!(
        parse_str("(times A B)"),
        Ok(Proposition::Times(atom("A"), Box::new(Proposition::Bottom)))
    );
    assert_eq!(parse_str("(times A C)"), Ok(Proposition::Times(atom("A"), atom("C"))));
}

#[test]
fn parse_nested_not_with() {
    assert_eq!(
        parse_str("(not (with A B))"),
        Ok(Proposition::Not(Box::new(Proposition::With(atom("A"), Box::new(Proposition::Bottom)))))
    );
    assert_eq!(
        parse_str("(not (with A C))"),
        Ok(Proposition::Not(Box::new(Proposition::With(atom("A"), atom("C")))))
    );
}

#[test]
fn parse_entails_constants() {
    assert_eq!(
        parse_str("(entails G D)"),
        Ok(Proposition::Entailment {
            left: Box::new(Proposition::Gamma),
            right: Box::new(Proposition::Delta),
        })
    );
}

#[test]
fn parse_bare_constants() {
    assert_eq!(parse_str("1"), Ok(Proposition::One));
    assert_eq!(parse_str("0"), Ok(Proposition::Zero));
    assert_eq!(parse_str("T"), Ok(Proposition::Top));
    assert_eq!(parse_str("B"), Ok(Proposition::Bottom));
    assert_eq!(parse_str("G"), Ok(Proposition::Gamma));
    assert_eq!(parse_str("D"), Ok(Proposition::Delta));
}

#[test]
fn parse_bare_word_is_atom() {
    assert_eq!(parse_str("foo"), Ok(Proposition::Atom("foo".to_string())));
}

#[test]
fn parse_empty_input_fails() {
    assert_eq!(parse_str(""), Err(ParseError::UnexpectedEndOfInput));
    let mut pos: usize = 0;
    assert_eq!(parse(&Vec::new(), &mut pos), Err(ParseError::UnexpectedEndOfInput));
}

#[test]
fn parse_missing_operand_fails() {
    assert_eq!(parse_str("(times A)"), Err(ParseError::UnexpectedEndOfInput));
    assert_eq!(parse_str("(times"), Err(ParseError::UnexpectedEndOfInput));
    assert_eq!(parse_str("("), Err(ParseError::UnexpectedEndOfInput));
    assert_eq!(parse_str("(not A"), Err(ParseError::UnexpectedEndOfInput));
}

#[test]
fn parse_unknown_operator() {
    assert_eq!(
        parse_str("(frobnicate A B)"),
        Err(ParseError::UnknownOperator("frobnicate".to_string()))
    );
}

#[test]
fn parse_wrong_closer() {
    assert_eq!(
        parse_str("(times A B EXTRA)"),
        Err(ParseError::ExpectedClosingParen("EXTRA".to_string()))
    );
}

#[test]
fn parse_stray_closer_and_keyword_are_atoms() {
    assert_eq!(parse_str(")"), Ok(Proposition::Atom(")".to_string())));
    assert_eq!(parse_str("not"), Ok(Proposition::Atom("not".to_string())));
    assert_eq!(
        parse_str("(par times A)"),
        Ok(Proposition::Par(atom("times"), atom("A")))
    );
}

#[test]
fn parse_all_connectives() {
    assert_eq!(
        parse_str("(plus (of-course A) (why-not C))"),
        Ok(Proposition::Plus(
            Box::new(Proposition::OfCourse(atom("A"))),
            Box::new(Proposition::WhyNot(atom("C")))
        ))
    );
    assert_eq!(
        parse_str("(par 1 (with 0 T))"),
        Ok(Proposition::Par(
            Box::new(Proposition::One),
            Box::new(Proposition::With(Box::new(Proposition::Zero), Box::new(Proposition::Top)))
        ))
    );
}

#[test]
fn parse_advances_cursor_and_leaves_rest() {
    let tokens = tokenize("(not A) C");
    let mut pos: usize = 0;
    assert_eq!(parse(&tokens, &mut pos), Ok(Proposition::Not(atom("A"))));
    assert_eq!(pos, 4);
    assert_eq!(parse(&tokens, &mut pos), Ok(Proposition::Atom("C".to_string())));
    assert_eq!(pos, 5);
    assert_eq!(parse(&tokens, &mut pos), Err(ParseError::UnexpectedEndOfInput));
}

#[test]
fn render_exact_text() {
    let p = Proposition::Entailment {
        left: Box::new(Proposition::Times(atom("A"), Box::new(Proposition::Bottom))),
        right: Box::new(Proposition::Not(atom("x"))),
    };
    assert_eq!(p.render(), "(entails (times A B) (not x))");
    assert_eq!(Proposition::Atom("foo".to_string()).render(), "foo");
}

#[test]
fn render_then_parse_round_trip() {
    let p = Proposition::Par(
        Box::new(Proposition::WhyNot(Box::new(Proposition::Plus(atom("p"), Box::new(Proposition::One))))),
        Box::new(Proposition::Entailment {
            left: Box::new(Proposition::OfCourse(atom("q"))),
            right: Box::new(Proposition::With(Box::new(Proposition::Gamma), atom("r"))),
        }),
    );
    let text = p.render();
    assert_eq!(parse_str(&text), Ok(p));
}

#[test]
fn atom_named_like_a_constant_reads_back_as_the_constant() {
    let text = Proposition::Not(atom("1")).render();
    assert_eq!(text, "(not 1)");
    assert_eq!(parse_str(&text), Ok(Proposition::Not(Box::new(Proposition::One))));
}
