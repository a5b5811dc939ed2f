use crisp::lang::{CrispError, CrispExpr, Primitive};
use crisp::lexer;
use crisp::parse::parse;

fn num(x: f32) -> CrispExpr {
    CrispExpr::Primitive(Primitive::Number(x.to_bits()))
}

#[test]
fn lex_basic() {
    let text = "(3 4 5)";
    let tokens = lexer(text);

    assert_eq!(tokens, vec!["(", "3", "4", "5", ")"]);
}

#[test]
fn lex_normalizes_whitespace() {
    assert_eq!(lexer("  ( 3\t4\n 5 )  "), vec!["(", "3", "4", "5", ")"]);
    assert_eq!(lexer("((a)b)"), vec!["(", "(", "a", ")", "b", ")"]);
    assert_eq!(lexer(""), Vec::<String>::new());
    assert_eq!(lexer("   \t\n"), Vec::<String>::new());
}

#[test]
fn lex_splits_on_unicode_whitespace() {
    assert_eq!(lexer("(+\u{3000}3 4)"), vec!["(", "+", "3", "4", ")"]);
}

#[test]
fn parse_basic() {
    let tokens = lexer("(3 5 7)");
    let (expr, rest) = parse(&tokens, 0).unwrap();

    assert_eq!(rest, tokens.len());

    assert_eq!(expr, CrispExpr::List(vec![num(3.), num(5.), num(7.)]));
}

#[test]
fn parse_fn_call() {
    let tokens = lexer("(+ 5 7)");
    let (expr, rest) = parse(&tokens, 0).unwrap();

    assert_eq!(rest, tokens.len());

    assert_eq!(
        expr,
        CrispExpr::List(vec![CrispExpr::Symbol("+".to_string()), num(5.), num(7.)])
    );
}

#[test]
fn parse_nested_lists() {
    let tokens = lexer("((-1 10 4) 6 7)");
    let (expr, rest) = parse(&tokens, 0).unwrap();

    assert_eq!(rest, tokens.len());

    assert_eq!(
        expr,
        CrispExpr::List(vec![
            CrispExpr::List(vec![num(-1.), num(10.), num(4.)]),
            num(6.),
            num(7.)
        ])
    );
}

#[test]
fn parse_numeric_tokens() {
    for (text, value) in [
        ("3", 3.0f32),
        ("3.5", 3.5),
        ("-1", -1.0),
        ("1e3", 1000.0),
        ("0.25", 0.25),
    ] {
        let tokens = vec![text.to_string()];
        let (expr, rest) = parse(&tokens, 0).unwrap();
        assert_eq!(rest, 1, "leftover tokens for {text}");
        assert_eq!(expr, num(value), "wrong value for {text}");
    }
}

#[test]
fn parse_booleans_and_symbols() {
    let tokens = vec!["true".to_string()];
    let (expr, _) = parse(&tokens, 0).unwrap();
    assert_eq!(expr, CrispExpr::Primitive(Primitive::Bool(true)));

    let tokens = vec!["false".to_string()];
    let (expr, _) = parse(&tokens, 0).unwrap();
    assert_eq!(expr, CrispExpr::Primitive(Primitive::Bool(false)));

    let tokens = vec!["hello".to_string()];
    let (expr, _) = parse(&tokens, 0).unwrap();
    assert_eq!(expr, CrispExpr::Symbol("hello".to_string()));
}

#[test]
fn parse_errors() {
    let empty: Vec<String> = Vec::new();
    assert_eq!(parse(&empty, 0), Err(CrispError::MissingParen(1, 0)));

    let tokens = lexer(")");
    assert_eq!(
        parse(&tokens, 0),
        Err(CrispError::SyntaxError("Unexpected ')'".to_string()))
    );

    let tokens = lexer("(3 4");
    assert_eq!(
        parse(&tokens, 0),
        Err(CrispError::SyntaxError("Expected a ')'".to_string()))
    );
}

#[test]
fn parse_ignores_trailing_tokens() {
    let tokens = lexer("(3) (4)");
    let (expr, rest) = parse(&tokens, 0).unwrap();
    assert_eq!(expr, CrispExpr::List(vec![num(3.)]));
    assert_eq!(rest, 3);
}
