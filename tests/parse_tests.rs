use calculator::ast::{Atom, Expr, Stmt};
use calculator::context::Context;
use calculator::eval::{eval_expr, eval_stmt};
use calculator::number::{float_to_string, Number};
use calculator::parser::{parse_expr, parse_stmt, parse_stmt_list};
use calculator::CalcError;

fn run(src: &str, ctx: &mut Context) -> String {
    let st = parse_stmt(src).unwrap();
    match eval_stmt(&st, ctx).unwrap() {
        Some(v) => float_to_string(&v),
        None => String::new(),
    }
}

#[test]
fn test_parse_number() {
    let ctx = Context::new();
    let value = |s: &str| eval_expr(&parse_expr(s).unwrap(), &ctx).unwrap();
    assert_eq!(value("123"), Number::from_i32(123));
    assert_eq!(float_to_string(&value("123.456")), "123.456");
    assert_eq!(float_to_string(&value("123E10")), "1.23e12");
    assert_eq!(float_to_string(&value("10e10")), "1.0e11");
    assert_eq!(float_to_string(&value("-12.45E-10")), "-1.245e-9");
}

#[test]
fn test_parse_expr() {
    let expr = parse_expr("123 + 456 + 7").unwrap();

    let ctx = Context::new();

    assert_eq!(eval_expr(&expr, &ctx).unwrap(), Number::from_i32(123 + 456 + 7));
}

#[test]
fn test_parse_fn_call() {
    match parse_expr("g(x,y)").unwrap() {
        Expr::FunctionCall { function, args } => {
            assert_eq!(function, "g");
            assert_eq!(args.len(), 2);
        }
        other => panic!("unexpected {:?}", other),
    }
}

#[test]
fn test_parse_stmt() {
    let stmt = parse_stmt("1 + 2;").unwrap();
    assert!(matches!(stmt, Stmt::ExprStmt(_)));
}

#[test]
fn precedence_and_associativity() {
    let mut ctx = Context::new();
    assert_eq!(run("1 + 2 * 3;", &mut ctx), "7");
    assert_eq!(run("(1 + 2) * 3;", &mut ctx), "9");
    assert_eq!(run("10 - 4 - 3;", &mut ctx), "3");
    assert_eq!(run("2 ^ 3 ^ 2;", &mut ctx), "512");
    assert_eq!(run("2 ^ 3 ^ 3;", &mut ctx), "1.34217728e8");
    assert_eq!(run("8 / 2 / 2;", &mut ctx), "2");
    assert_eq!(run("sqrt( 9 ) + 1 ;", &mut ctx), "4");
}

#[test]
fn assignment_then_use() {
    let mut ctx = Context::new();
    assert_eq!(run("a = 5;", &mut ctx), "5");
    assert_eq!(run("a * 2;", &mut ctx), "10");
    let st = parse_stmt("a = 6;").unwrap();
    assert!(matches!(eval_stmt(&st, &mut ctx), Err(CalcError::NameAlreadyBound(_))));
}

#[test]
fn symbols_and_atoms() {
    match parse_expr("  abc ").unwrap() {
        Expr::AtomExpr(Atom::Symbol(s)) => assert_eq!(s, "abc"),
        other => panic!("unexpected {:?}", other),
    }
}

#[test]
fn parse_errors() {
    assert!(matches!(parse_stmt("1 + 2"), Err(CalcError::ParseError)));
    assert!(matches!(parse_stmt("1 + 2; 3"), Err(CalcError::ParseError)));
    assert!(matches!(parse_expr("(1 + 2"), Err(CalcError::ParseError)));
    assert!(matches!(parse_expr(""), Err(CalcError::ParseError)));
}

#[test]
fn statement_list() {
    let stmts = parse_stmt_list(" x = 2; x + 1;  ").unwrap();
    assert_eq!(stmts.len(), 2);
    let mut ctx = Context::new();
    let mut out = Vec::new();
    for st in &stmts {
        out.push(float_to_string(&eval_stmt(st, &mut ctx).unwrap().unwrap()));
    }
    assert_eq!(out, vec!["2".to_string(), "3".to_string()]);
    assert!(parse_stmt_list("x = 2; x +").is_err());
    assert_eq!(parse_stmt_list("  ").unwrap().len(), 0);
}

#[test]
fn formatted_text_reparses_to_same_text() {
    let ctx = Context::new();
    for src in ["1 / 3", "2 / 3 * 1000000", "0 - 1 / 7", "123456789 * 1000", "1 / 8000"] {
        let text = float_to_string(&eval_expr(&parse_expr(src).unwrap(), &ctx).unwrap());
        let again = float_to_string(&eval_expr(&parse_expr(&text).unwrap(), &ctx).unwrap());
        assert_eq!(text, again, "{}", src);
    }
}

#[test]
fn literal_statements_are_idempotent() {
    for src in ["x = 42;", "1.5 + 2.25;", "7 * 6;"] {
        let mut ctx = Context::new();
        let first = run(src, &mut ctx);
        let mut ctx2 = Context::new();
        let second = run(&format!("{};", first), &mut ctx2);
        assert_eq!(first, second, "{}", src);
    }
}
