use farnese::lexer::{
    can_lex, classify, create_tokens, is_float, parse_tokens, try_parse_tokens, Token,
};
use farnese::tree::{BinaryExpression, Expression, Keyword, Number, Variable};

fn lexed(text: &str) -> Option<Vec<String>> {
    try_parse_tokens(&text.to_string())
}

fn words(list: &[&str]) -> Option<Vec<String>> {
    Some(list.iter().map(|w| w.to_string()).collect())
}

#[test]
fn tokens_are_words_numbers_and_operators() {
    assert_eq!(lexed("x = 1 + 2 "), words(&["x", "=", "1", "+", "2"]));
    assert_eq!(lexed(""), words(&[]));
    assert_eq!(lexed("   "), words(&[]));
    assert_eq!(lexed("( ) , "), words(&["(", ")", ","]));
    assert_eq!(lexed("abstract type Real "), words(&["abstract", "type", "Real"]));
    assert_eq!(lexed("a1_b2 "), words(&["a1b2"]));
    assert_eq!(lexed("3.14 "), words(&["3.14"]));
    assert_eq!(lexed("\u{e9} "), words(&["\u{e9}"]));
    assert_eq!(lexed("? "), words(&[]));
    assert_eq!(parse_tokens(&"f(x) ".to_string()), vec!["f", "(", "x", ")"]);
}

#[test]
fn number_takes_digits_up_to_the_next_whitespace() {
    assert_eq!(lexed("foo(bar, 12) "), words(&["foo", "(", "bar", ",", "12"]));
    assert_eq!(lexed("12+3 "), words(&["123"]));
    assert_eq!(lexed("1a2 b "), words(&["12", "b"]));
}

#[test]
fn word_or_number_at_the_end_is_not_read() {
    assert_eq!(lexed("x"), None);
    assert_eq!(lexed("x = 1"), None);
    assert_eq!(lexed("x = y"), None);
    assert!(!can_lex(&"end".to_string()));
    assert!(can_lex(&"end ".to_string()));
    assert!(can_lex(&"x = (".to_string()));
    assert_eq!(lexed("x = ("), words(&["x", "=", "("]));
}

#[test]
fn token_has_the_kind_of_what_it_holds() {
    let tokens: Vec<String> =
        ["function", "+", "(", "1.5", "abc", "inf", "1.2.3", "end", "a+b", "abstract type", ""]
            .iter()
            .map(|t| t.to_string())
            .collect();
    assert_eq!(
        create_tokens(tokens),
        vec![
            Token::Keyword,
            Token::BinaryOperator,
            Token::OtherOperator,
            Token::Number,
            Token::Name,
            Token::Number,
            Token::Name,
            Token::Keyword,
            Token::BinaryOperator,
            Token::Keyword,
            Token::Name,
        ]
    );
    assert_eq!(classify("-1"), Token::BinaryOperator);
    assert_eq!(classify("f(x"), Token::OtherOperator);
    assert_eq!(classify("x/(y"), Token::BinaryOperator);
    assert_eq!(classify("="), Token::Name);
    assert_eq!(classify("Function"), Token::Name);
    assert_eq!(create_tokens(vec![]), vec![]);
}

#[test]
fn float_is_told_as_the_standard_library_tells_it() {
    for text in [
        "0", "1.5", "1.", ".5", "+1", "-1.5e-3", "1e5", "1E+5", "inf", "+inf", "-Infinity", "NaN",
        "nan", "007", "1.e2", ".5e0", "", ".", "+", "-", "e5", "1e", "1e+", "1.2.3", "1 ", " 1",
        "infinit", "in", "nanx", "0x10", "1_000", "1e5.0", "++1", "1f", "Infinity8", "١",
    ] {
        assert_eq!(is_float(text), text.parse::<f64>().is_ok(), "{:?}", text);
    }
    assert!(is_float("3.14"));
    assert!(!is_float("abc"));
}

#[test]
fn pieces_of_syntax_are_written_out() {
    assert_eq!(Keyword::new("function").expression(), "function");
    assert_eq!(Variable::new("x").expression(), "x");
    assert_eq!(Number::new("1.50").expression(), "1.50");
    let sum = BinaryExpression::new(Variable::new("x"), "+", Number::new("2"));
    assert_eq!(sum.expression(), "+");
    let nested = BinaryExpression::new(sum, "*", Keyword::new("end"));
    assert_eq!(nested.expression(), "*");
}

#[test]
fn parameter_is_bounded_by_another() {
    use_parameters();
}

fn use_parameters() {
    let bound = farnese::ast::Parameter { name: farnese::symbol::Symbol::new("Real"), supertype: None };
    let parameter = farnese::ast::Parameter {
        name: farnese::symbol::Symbol::new("T"),
        supertype: Some(Box::new(bound)),
    };
    assert_eq!(parameter.name.name(), "T");
    assert_eq!(parameter.supertype.as_ref().unwrap().name.name(), "Real");
    let plain = farnese::ast::Identifier::Symbol(farnese::symbol::Symbol::new("Int64"));
    assert!(matches!(plain, farnese::ast::Identifier::Symbol(ref s) if s.name() == "Int64"));
    let bounded = farnese::ast::Identifier::Parameter(parameter);
    assert!(matches!(bounded, farnese::ast::Identifier::Parameter(ref p) if p.supertype.is_some()));
}
