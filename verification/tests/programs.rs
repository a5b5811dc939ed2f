use crisp::eval::CrispEnv;
use crisp::lang::{CrispError, CrispExpr, Primitive};
use crisp::run_program;

fn num(x: f32) -> CrispExpr {
    CrispExpr::Primitive(Primitive::Number(x.to_bits()))
}

fn boolean(b: bool) -> CrispExpr {
    CrispExpr::Primitive(Primitive::Bool(b))
}

fn eval_err(msg: &str) -> Result<CrispExpr, CrispError> {
    Err(CrispError::EvalError(msg.to_string()))
}

#[test]
fn addition_with_identity() {
    let mut env = CrispEnv::default();
    assert_eq!(run_program("(+\u{3000}3 4 5)", &mut env), Ok(num(12.)));
    assert_eq!(run_program("(+)", &mut env), Ok(num(0.)));
    assert_eq!(run_program("(*)", &mut env), Ok(num(1.)));
    assert_eq!(run_program("(- 10 3 2)", &mut env), Ok(num(5.)));
    assert_eq!(
        run_program("(- )", &mut env),
        eval_err("- takes at least one argument")
    );
}

#[test]
fn def_binds_then_resolves() {
    let mut env = CrispEnv::default();
    assert_eq!(
        run_program("(def x 5)", &mut env),
        Ok(CrispExpr::Symbol("x".to_string()))
    );
    assert_eq!(run_program("x", &mut env), Ok(num(5.)));
    assert_eq!(
        run_program("(def x 6)", &mut env),
        eval_err("Variable with name 'x' already exists")
    );

    let mut fresh = CrispEnv::default();
    assert_eq!(run_program("x", &mut fresh), eval_err("Unknown symbol: x"));
}

#[test]
fn def_argument_errors() {
    let mut env = CrispEnv::default();
    assert_eq!(
        run_program("(def 5 6)", &mut env),
        eval_err("First argument must be a symbol")
    );
    assert_eq!(run_program("(def)", &mut env), eval_err("Expected a name"));
    assert_eq!(run_program("(def y)", &mut env), eval_err("Expected a value"));
    assert_eq!(
        run_program("(def y 1 2)", &mut env),
        eval_err("def takes exactly two arguments")
    );
}

#[test]
fn if_selects_branch() {
    let mut env = CrispEnv::default();
    assert_eq!(run_program("(if (> 5 3) 1 2)", &mut env), Ok(num(1.)));
    assert_eq!(run_program("(if (> 3 5) 1 2)", &mut env), Ok(num(2.)));
    assert_eq!(
        run_program("(if 5 1 2)", &mut env),
        eval_err("Test form must evaluate to a boolean")
    );
    assert_eq!(
        run_program("(if true)", &mut env),
        eval_err("missing true or false clause")
    );
    assert_eq!(
        run_program("(if true 1 2 3)", &mut env),
        eval_err("if takes exactly three arguments")
    );
}

#[test]
fn lambda_applies_and_checks_arity() {
    let mut env = CrispEnv::default();
    assert_eq!(
        run_program("((fn (a b) (+ a b)) 1)", &mut env),
        eval_err("Wrong number of arguments were supplied")
    );
    assert_eq!(run_program("((fn (a b) (+ a b)) 3 4)", &mut env), Ok(num(7.)));
}

#[test]
fn lambda_form_errors() {
    let mut env = CrispEnv::default();
    assert_eq!(
        run_program("(fn (1 2) 3)", &mut env),
        eval_err("Param list must contain only symbols")
    );
    assert_eq!(
        run_program("(fn x 3)", &mut env),
        eval_err("Params should be a list")
    );
    assert_eq!(
        run_program("(fn)", &mut env),
        eval_err("Expected a param expression")
    );
}

#[test]
fn lambda_without_a_body_is_an_error() {
    let mut env = CrispEnv::default();
    assert_eq!(
        run_program("(fn (a))", &mut env),
        eval_err("Expected a body expression")
    );
}

#[test]
fn begin_without_arguments_is_an_error() {
    let mut env = CrispEnv::default();
    assert_eq!(
        run_program("(begin)", &mut env),
        eval_err("begin takes at least one argument")
    );
}

#[test]
fn parameter_shadows_outer_binding() {
    let mut env = CrispEnv::default();
    assert_eq!(
        run_program("(def a 1)", &mut env),
        Ok(CrispExpr::Symbol("a".to_string()))
    );
    assert_eq!(run_program("((fn (a) a) 42)", &mut env), Ok(num(42.)));
    assert_eq!(run_program("a", &mut env), Ok(num(1.)));
}

#[test]
fn quote_returns_input_unevaluated() {
    let mut env = CrispEnv::default();
    assert_eq!(
        run_program("(quote (+ 3 4))", &mut env),
        Ok(CrispExpr::List(vec![
            CrispExpr::Symbol("+".to_string()),
            num(3.),
            num(4.)
        ]))
    );
    assert_eq!(run_program("(quote x)", &mut env), Ok(CrispExpr::Symbol("x".to_string())));
}

#[test]
fn empty_list_cannot_be_evaluated() {
    let mut env = CrispEnv::default();
    assert_eq!(run_program("()", &mut env), eval_err("Can't eval an empty list."));
}

#[test]
fn begin_sequences_and_returns_last() {
    let mut env = CrispEnv::default();
    assert_eq!(run_program("(begin (def b 2) (+ b 1))", &mut env), Ok(num(3.)));
    assert_eq!(run_program("b", &mut env), Ok(num(2.)));
    assert_eq!(
        run_program("(begin (def c 1) nope)", &mut env),
        eval_err("Unknown symbol: nope")
    );
    assert_eq!(run_program("c", &mut env), Ok(num(1.)));
}

#[test]
fn booleans_evaluate_to_themselves() {
    let mut env = CrispEnv::default();
    assert_eq!(run_program("true", &mut env), Ok(boolean(true)));
    assert_eq!(run_program("false", &mut env), Ok(boolean(false)));
}

#[test]
fn empty_input_is_a_missing_paren() {
    let mut env = CrispEnv::default();
    assert_eq!(run_program("", &mut env), Err(CrispError::MissingParen(1, 0)));
    assert_eq!(run_program("   ", &mut env), Err(CrispError::MissingParen(1, 0)));
}

#[test]
fn runaway_recursion_is_reported() {
    let mut env = CrispEnv::default();
    assert_eq!(
        run_program("(def loop (fn (x) (loop x)))", &mut env),
        Ok(CrispExpr::Symbol("loop".to_string()))
    );
    assert_eq!(
        run_program("(loop 1)", &mut env),
        eval_err("Recursion depth exceeded")
    );
}

#[test]
fn fractional_arithmetic_is_single_precision() {
    let mut env = CrispEnv::default();
    assert_eq!(run_program("(+ 0.1 0.2)", &mut env), Ok(num(0.1f32 + 0.2f32)));
    assert_eq!(run_program("(* 2.5 4)", &mut env), Ok(num(10.)));
    assert_eq!(run_program("(> 2.5 2.25)", &mut env), Ok(boolean(true)));
}
