use calculator::context::Context;
use calculator::session::{eval_statement_list_text, eval_statement_text};
use calculator::CalcError;

#[test]
fn statement_text_values_and_errors() {
    let mut ctx = Context::new();
    assert_eq!(eval_statement_text("a = 2;", &mut ctx), "2");
    assert_eq!(eval_statement_text("a / 8;", &mut ctx), "0.25");
    assert_eq!(eval_statement_text("a = 3;", &mut ctx), "ERROR: Name already bound: \"a\"");
    assert_eq!(eval_statement_text("b;", &mut ctx), "ERROR: Name not found: \"b\"");
    assert_eq!(eval_statement_text("a +", &mut ctx), "ERROR: Parsing error");
    assert_eq!(eval_statement_text("sqrt(1, 2);", &mut ctx), "ERROR: Expected 1 arguments, found 2");
    assert_eq!(eval_statement_text("1 / 0;", &mut ctx), "Inf");
    assert_eq!(eval_statement_text("0 / 0;", &mut ctx), "NaN");
}

#[test]
fn statement_list_text_runs_in_order() {
    let mut ctx = Context::new();
    let out = eval_statement_list_text("x = 1; y = x + 1; z; y * 10;", &mut ctx);
    assert_eq!(out, vec!["1", "2", "ERROR: Name not found: \"z\"", "20"]);
    let out = eval_statement_list_text("x = ;", &mut ctx);
    assert_eq!(out, vec!["ERROR: Parsing error"]);
}

#[test]
fn error_messages() {
    assert_eq!(CalcError::IncorrectArity(2, 1).message(), "ERROR: Expected 2 arguments, found 1");
    assert_eq!(CalcError::ParseNum.message(), "ERROR: Number parsing error");
    assert_eq!(CalcError::IOError.message(), "ERROR: IO error");
    assert_eq!(CalcError::DepthExceeded.message(), "ERROR: Evaluation nested too deeply");
}
