use crisp::eval::{eval, CrispEnv};
use crisp::lang::{CrispError, CrispExpr, Primitive};

fn num(x: f32) -> CrispExpr {
    CrispExpr::Primitive(Primitive::Number(x.to_bits()))
}

fn sym(name: &str) -> CrispExpr {
    CrispExpr::Symbol(name.to_string())
}

#[test]
fn eval_quoted_list() {
    let mut env = CrispEnv::default();
    let expr = CrispExpr::List(vec![
        sym("quote"),
        CrispExpr::List(vec![sym("+"), num(3.), num(4.)]),
    ]);

    assert_eq!(
        eval(&expr, &mut env),
        Ok(CrispExpr::List(vec![sym("+"), num(3.), num(4.)]),)
    );
}

#[test]
fn eval_list() {
    let mut env = CrispEnv::default();
    let list = CrispExpr::List(vec![sym("+"), num(3.), num(4.), num(5.)]);

    assert_eq!(eval(&list, &mut env), Ok(num(12.)));
}

#[test]
fn eval_number() {
    let mut env = CrispEnv::default();
    let expr = num(45.);
    assert_eq!(eval(&expr, &mut env), Ok(num(45.)));
}

#[test]
fn eval_empty_list_fails() {
    let mut env = CrispEnv::default();
    let expr = CrispExpr::List(vec![]);
    assert_eq!(
        eval(&expr, &mut env),
        Err(CrispError::EvalError("Can't eval an empty list.".to_string()))
    );
}

#[test]
fn eval_unknown_symbol_fails() {
    let mut env = CrispEnv::default();
    assert_eq!(
        eval(&sym("nope"), &mut env),
        Err(CrispError::EvalError("Unknown symbol: nope".to_string()))
    );
}

#[test]
fn eval_non_callable_fails() {
    let mut env = CrispEnv::default();
    let expr = CrispExpr::List(vec![num(5.), num(1.)]);
    assert_eq!(
        eval(&expr, &mut env),
        Err(CrispError::EvalError("First form must be a function".to_string()))
    );
}

#[test]
fn eval_subtraction_folds_left() {
    let mut env = CrispEnv::default();
    let list = CrispExpr::List(vec![sym("-"), num(10.), num(3.), num(2.)]);
    assert_eq!(eval(&list, &mut env), Ok(num(5.)));
}

#[test]
fn eval_multiplication() {
    let mut env = CrispEnv::default();
    let list = CrispExpr::List(vec![sym("*"), num(3.), num(4.)]);
    assert_eq!(eval(&list, &mut env), Ok(num(12.)));
}

#[test]
fn eval_comparison() {
    let mut env = CrispEnv::default();
    let list = CrispExpr::List(vec![sym(">"), num(5.), num(3.)]);
    assert_eq!(
        eval(&list, &mut env),
        Ok(CrispExpr::Primitive(Primitive::Bool(true)))
    );
    let list = CrispExpr::List(vec![sym(">"), num(3.), num(5.)]);
    assert_eq!(
        eval(&list, &mut env),
        Ok(CrispExpr::Primitive(Primitive::Bool(false)))
    );
}

#[test]
fn environment_lookup_walks_to_the_parent() {
    let mut env = CrispEnv::default();
    env.insert("x".to_string(), num(5.));
    assert!(env.contains_current("x"));
    assert_eq!(env.get("x"), Some(num(5.)));

    let child = CrispEnv::from_parent(&env);
    assert_eq!(child.get("x"), Some(num(5.)));
    assert!(!child.contains_current("x"));
    assert_eq!(child.get("y"), None);
}

#[test]
fn environment_inner_binding_shadows_outer() {
    let env = CrispEnv::default();
    let mut child = CrispEnv::from_parent(&env);
    child.insert("+".to_string(), num(9.));
    assert_eq!(child.get("+"), Some(num(9.)));
}

#[test]
fn eval_builtin_argument_errors() {
    let mut env = CrispEnv::default();

    let list = CrispExpr::List(vec![sym("-")]);
    assert_eq!(
        eval(&list, &mut env),
        Err(CrispError::EvalError("- takes at least one argument".to_string()))
    );

    let list = CrispExpr::List(vec![sym(">")]);
    assert_eq!(
        eval(&list, &mut env),
        Err(CrispError::EvalError("> takes at least one argument".to_string()))
    );

    let list = CrispExpr::List(vec![sym(">"), num(1.)]);
    assert_eq!(
        eval(&list, &mut env),
        Err(CrispError::EvalError("Expected a second argument".to_string()))
    );

    let list = CrispExpr::List(vec![sym("+"), CrispExpr::Primitive(Primitive::Bool(true))]);
    assert_eq!(
        eval(&list, &mut env),
        Err(CrispError::EvalError("Expected a number".to_string()))
    );
}
