use calculator::ast::{Atom, BinaryOp, Expr, Stmt, UnaryOp};
use calculator::context::{CalcFunc, Context};
use calculator::eval::{eval_atom, eval_expr, eval_stmt};
use calculator::number::{float_to_string, Number};
use calculator::CalcError;

fn num(i: i32) -> Number {
    Number::from_i32(i)
}

fn sym(s: &str) -> Expr {
    Expr::AtomExpr(Atom::Symbol(s.to_string()))
}

fn lit(i: i32) -> Expr {
    Expr::AtomExpr(Atom::Num(num(i)))
}

fn add_xy() -> Expr {
    Expr::BinaryExpr { lhs: Box::new(sym("x")), rhs: Box::new(sym("y")), op: BinaryOp::Plus }
}

#[test]
fn lib_test_atom_eval() {
    let num = Number::from_i32(123);

    let mut ctx = Context::new();
    ctx.bind_value("a".to_string(), num.clone()).expect("failed to bind value");

    let sym_atom = Atom::Symbol("a".to_string());
    let res = eval_atom(&sym_atom, &ctx).expect("failed to evaluate symbol atom");
    assert_eq!(num, res);

    let num_atom = Atom::Num(num.clone());
    let res = eval_atom(&num_atom, &ctx).expect("failed to evaluate number atom");
    assert_eq!(num, res);
}

#[test]
fn lib_test_expr_eval() {
    let num = Number::from_i32(123);
    let num2 = Number::from_i32(-123);
    let num3 = Number::from_i32(10);
    let num4 = Number::from_i32(20);
    let num5 = Number::from_i32(30);

    let ctx = Context::new();

    let expr = Expr::UnaryExpr { op: UnaryOp::Negate, data: Box::new(Expr::AtomExpr(Atom::Num(num))) };
    let res = eval_expr(&expr, &ctx).unwrap();
    assert_eq!(res, num2);

    let lhs = Expr::AtomExpr(Atom::Num(num3));
    let rhs = Expr::AtomExpr(Atom::Num(num4));
    let add_expr = Expr::BinaryExpr { lhs: Box::new(lhs), rhs: Box::new(rhs), op: BinaryOp::Plus };
    let res = eval_expr(&add_expr, &ctx).unwrap();
    assert_eq!(res, num5);
}

#[test]
fn lib_test_function_call() {
    let num1 = Number::from_i32(10);
    let num2 = Number::from_i32(20);
    let num3 = Number::from_i32(30);

    let mut ctx = Context::new();

    let func = CalcFunc::new(vec!["x".to_string(), "y".to_string()], add_xy());
    ctx.bind_fn("f".to_string(), func).unwrap();

    let func_call = Expr::FunctionCall {
        function: "f".to_string(),
        args: vec![Expr::AtomExpr(Atom::Num(num1)), Expr::AtomExpr(Atom::Num(num2))],
    };

    let res = eval_expr(&func_call, &ctx).unwrap();

    assert_eq!(res, num3);
}

#[test]
fn main_test_atom_eval() {
    let num = Number::from_i32(123);

    let mut ctx = Context::new();
    ctx.bind_value("a".to_string(), num.clone()).expect("failed to bind value");

    let sym_atom = Atom::Symbol("a".to_string());
    let res = eval_atom(&sym_atom, &ctx).expect("failed to evaluate symbol atom");
    assert_eq!(num, res);

    let num_atom = Atom::Num(num.clone());
    let res = eval_atom(&num_atom, &ctx).expect("failed to evaluate number atom");
    assert_eq!(num, res);
}

#[test]
fn main_test_expr_eval() {
    let num = Number::from_i32(123);
    let num2 = Number::from_i32(-123);
    let num3 = Number::from_i32(10);
    let num4 = Number::from_i32(20);
    let num5 = Number::from_i32(30);

    let ctx = Context::new();

    let expr = Expr::UnaryExpr { op: UnaryOp::Negate, data: Box::new(Expr::AtomExpr(Atom::Num(num))) };
    let res = eval_expr(&expr, &ctx).unwrap();
    assert_eq!(res, num2);

    let lhs = Expr::AtomExpr(Atom::Num(num3));
    let rhs = Expr::AtomExpr(Atom::Num(num4));
    let add_expr = Expr::BinaryExpr { lhs: Box::new(lhs), rhs: Box::new(rhs), op: BinaryOp::Plus };
    let res = eval_expr(&add_expr, &ctx).unwrap();
    assert_eq!(res, num5);
}

#[test]
fn main_test_function_call() {
    let num1 = Number::from_i32(10);
    let num2 = Number::from_i32(20);
    let num3 = Number::from_i32(30);

    let mut ctx = Context::new();

    let func = CalcFunc::new(vec!["x".to_string(), "y".to_string()], add_xy());
    ctx.bind_fn("f".to_string(), func).unwrap();

    let func_call = Expr::FunctionCall {
        function: "f".to_string(),
        args: vec![Expr::AtomExpr(Atom::Num(num1)), Expr::AtomExpr(Atom::Num(num2))],
    };

    let res = eval_expr(&func_call, &ctx).unwrap();

    assert_eq!(res, num3);
}

#[test]
fn number_literal_is_unchanged() {
    let ctx = Context::new();
    let n = num(-7);
    assert_eq!(eval_expr(&Expr::AtomExpr(Atom::Num(n.clone())), &ctx).unwrap(), n);
}

#[test]
fn unbound_symbol_is_not_found() {
    let ctx = Context::new();
    match eval_expr(&sym("zz"), &ctx) {
        Err(CalcError::NameNotFound(name)) => assert_eq!(name, "zz"),
        other => panic!("unexpected {:?}", other),
    }
}

#[test]
fn negate_and_add_render() {
    let ctx = Context::new();
    let neg = Expr::UnaryExpr { op: UnaryOp::Negate, data: Box::new(lit(123)) };
    assert_eq!(float_to_string(&eval_expr(&neg, &ctx).unwrap()), "-123");
    let sum = Expr::BinaryExpr { lhs: Box::new(lit(10)), rhs: Box::new(lit(20)), op: BinaryOp::Plus };
    assert_eq!(float_to_string(&eval_expr(&sum, &ctx).unwrap()), "30");
}

#[test]
fn arithmetic_operators() {
    let ctx = Context::new();
    let op = |a: i32, op: BinaryOp, b: i32| {
        let e = Expr::BinaryExpr { lhs: Box::new(lit(a)), rhs: Box::new(lit(b)), op };
        float_to_string(&eval_expr(&e, &ctx).unwrap())
    };
    assert_eq!(op(7, BinaryOp::Minus, 10), "-3");
    assert_eq!(op(6, BinaryOp::Times, 7), "42");
    assert_eq!(op(1, BinaryOp::Divide, 4), "0.25");
    assert_eq!(op(2, BinaryOp::Power, 10), "1.024e3");
    assert_eq!(op(1, BinaryOp::Divide, 0), "Inf");
}

#[test]
fn builtin_functions() {
    let ctx = Context::new();
    let call = |f: &str, a: i32| {
        let e = Expr::FunctionCall { function: f.to_string(), args: vec![lit(a)] };
        float_to_string(&eval_expr(&e, &ctx).unwrap())
    };
    assert_eq!(call("sqrt", 16), "4");
    assert_eq!(call("sin", 0), "0");
    assert_eq!(call("cos", 0), "1");
    assert_eq!(call("tan", 0), "0");
    assert_eq!(call("sqrt", 2), "1.4142135623731");
}

#[test]
fn user_function_arity_mismatch() {
    let mut ctx = Context::new();
    ctx.bind_fn("f".to_string(), CalcFunc::new(vec!["x".to_string(), "y".to_string()], add_xy())).unwrap();
    let two = Expr::FunctionCall { function: "f".to_string(), args: vec![lit(10), lit(20)] };
    assert_eq!(float_to_string(&eval_expr(&two, &ctx).unwrap()), "30");
    let one = Expr::FunctionCall { function: "f".to_string(), args: vec![lit(10)] };
    match eval_expr(&one, &ctx) {
        Err(CalcError::IncorrectArity(2, 1)) => {}
        other => panic!("unexpected {:?}", other),
    }
}

#[test]
fn rebinding_fails_and_shadowing_succeeds() {
    let mut ctx = Context::new();
    ctx.bind_value("a".to_string(), num(1)).unwrap();
    match ctx.bind_value("a".to_string(), num(2)) {
        Err(CalcError::NameAlreadyBound(name)) => assert_eq!(name, "a"),
        other => panic!("unexpected {:?}", other),
    }
    let mut child = ctx.copy();
    child.add_scope(Vec::new());
    child.bind_value("a".to_string(), num(5)).unwrap();
    assert_eq!(child.lookup_value("a").unwrap(), num(5));
    assert_eq!(ctx.lookup_value("a").unwrap(), num(1));
}

#[test]
fn builtin_names_cannot_be_bound() {
    let mut ctx = Context::new();
    match ctx.bind_fn("sqrt".to_string(), CalcFunc::new(vec![], lit(1))) {
        Err(CalcError::NameAlreadyBound(name)) => assert_eq!(name, "sqrt"),
        other => panic!("unexpected {:?}", other),
    }
}

#[test]
fn closures_capture_defining_context() {
    let mut ctx = Context::new();
    ctx.bind_value("k".to_string(), num(100)).unwrap();
    let def = Stmt::FuncDef { name: "g".to_string(), params: vec!["x".to_string()], body: Expr::BinaryExpr {
        lhs: Box::new(sym("x")),
        rhs: Box::new(sym("k")),
        op: BinaryOp::Plus,
    } };
    assert!(eval_stmt(&def, &mut ctx).unwrap().is_none());
    // A block binds its own `k`; the call still sees the `k` of the definition.
    let block = Expr::BlockExpr {
        stmts: vec![Stmt::Assignment { name: "k".to_string(), value: lit(1) }],
        final_expr: Box::new(Expr::FunctionCall { function: "g".to_string(), args: vec![lit(1)] }),
    };
    assert_eq!(float_to_string(&eval_expr(&block, &ctx).unwrap()), "101");
    // Nothing bound inside the block escapes it.
    assert_eq!(ctx.lookup_value("k").unwrap(), num(100));
}

#[test]
fn failed_statement_leaves_context() {
    let mut ctx = Context::new();
    let st = Stmt::Assignment { name: "a".to_string(), value: sym("missing") };
    assert!(eval_stmt(&st, &mut ctx).is_err());
    assert!(ctx.lookup_value("a").is_err());
    let ok = Stmt::Assignment { name: "a".to_string(), value: lit(4) };
    assert_eq!(eval_stmt(&ok, &mut ctx).unwrap(), Some(num(4)));
}
