//! Tree-walking evaluation of expressions and statements.

use crate::ast::{atom_view, names_view, copy_names, Atom, AtomV, BinaryOp, Expr, ExprV, Stmt, StmtV, UnaryOp};
use crate::context::{
    arity_of, bind_fn_in, bind_value_in, empty_frame, lookup_fn_in,
    lookup_value_in, numbers_view, params_frame, Builtin, CalcFunc, Callable, CallableV, Context,
    FrameV,
};
use crate::number::{
    cos_of, difference_of, negation_of, num_add, num_cos, num_div, num_mul, num_neg, num_pow,
    num_sin, num_sqrt, num_sub, num_tan, power_of, product_of, quotient_of, sin_of, sqrt_of,
    sum_of, tan_of, Number, NumberView,
};
use crate::{result_view, CalcError, CalcErrorV};
use vstd::prelude::*;

verus! {

/// Nesting budget of one evaluation.
pub const MAX_DEPTH: u64 = 0xffff_ffff_ffff_ffff;

pub open spec fn apply_binary(op: BinaryOp, a: NumberView, b: NumberView) -> NumberView {
    match op {
        BinaryOp::Plus => sum_of(a, b),
        BinaryOp::Minus => difference_of(a, b),
        BinaryOp::Times => product_of(a, b),
        BinaryOp::Divide => quotient_of(a, b),
        BinaryOp::Power => power_of(a, b),
    }
}

pub open spec fn apply_builtin(f: Builtin, a: NumberView) -> NumberView {
    match f {
        Builtin::Sqrt => sqrt_of(a),
        Builtin::Sin => sin_of(a),
        Builtin::Cos => cos_of(a),
        Builtin::Tan => tan_of(a),
    }
}

/// Value of an atom: a number is itself, a symbol is looked up.
pub open spec fn eval_atom_spec(a: AtomV, c: Seq<FrameV>) -> Result<NumberView, CalcErrorV> {
    match a {
        AtomV::Num(n) => Ok(n),
        AtomV::Symbol(s) => match lookup_value_in(c, s) {
            Some(v) => Ok(v),
            None => Err(CalcErrorV::NameNotFound(s)),
        },
    }
}

/// Value of an expression in context `c`, nesting at most `fuel` deep.
pub open spec fn eval_expr_spec(e: ExprV, c: Seq<FrameV>, fuel: nat) -> Result<
    NumberView,
    CalcErrorV,
>
    decreases fuel, 0nat,
{
    if fuel == 0 {
        Err(CalcErrorV::DepthExceeded)
    } else {
        let f = (fuel - 1) as nat;
        match e {
            ExprV::Atom(a) => eval_atom_spec(a, c),
            ExprV::Unary(op, d) => match eval_expr_spec(*d, c, f) {
                Ok(v) => Ok(negation_of(v)),
                Err(x) => Err(x),
            },
            ExprV::Binary(op, l, r) => match eval_expr_spec(*l, c, f) {
                Err(x) => Err(x),
                Ok(a) => match eval_expr_spec(*r, c, f) {
                    Err(x) => Err(x),
                    Ok(b) => Ok(apply_binary(op, a, b)),
                },
            },
            ExprV::Call(name, args) => match lookup_fn_in(c, name) {
                None => Err(CalcErrorV::NameNotFound(name)),
                Some(func) => match eval_args_spec(args, 0, c, f) {
                    Err(x) => Err(x),
                    Ok(vals) => if vals.len() != arity_of(func) {
                        Err(CalcErrorV::IncorrectArity(arity_of(func), vals.len()))
                    } else {
                        call_spec(func, vals, f)
                    },
                },
            },
            ExprV::Block(stmts, fin) => match eval_stmts_spec(stmts, 0, c.push(empty_frame()), f) {
                Err(x) => Err(x),
                Ok(c2) => eval_expr_spec(*fin, c2, f),
            },
        }
    }
}

/// Values of `args[i..]`, left to right; the first failure stops them.
pub open spec fn eval_args_spec(args: Seq<ExprV>, i: int, c: Seq<FrameV>, fuel: nat) -> Result<
    Seq<NumberView>,
    CalcErrorV,
>
    decreases fuel, (if i < args.len() { args.len() - i } else { 0 }) + 1,
{
    if i < 0 || i >= args.len() {
        Ok(Seq::empty())
    } else {
        match eval_expr_spec(args[i], c, fuel) {
            Err(x) => Err(x),
            Ok(v) => match eval_args_spec(args, i + 1, c, fuel) {
                Err(x) => Err(x),
                Ok(vs) => Ok(seq![v] + vs),
            },
        }
    }
}

/// Applies a callable to argument values of the right number: a user function
/// runs its body in its defining context, extended by the parameters.
pub open spec fn call_spec(func: CallableV, vals: Seq<NumberView>, fuel: nat) -> Result<
    NumberView,
    CalcErrorV,
>
    decreases fuel, 1nat,
{
    match func {
        CallableV::Builtin(b) => Ok(apply_builtin(b, vals[0])),
        CallableV::User { params, body, captured } => eval_expr_spec(
            body,
            captured.push(params_frame(params, vals)),
            fuel,
        ),
    }
}

/// Outcome of a statement: its value (none for a definition) and the new
/// context.
pub open spec fn eval_stmt_spec(s: StmtV, c: Seq<FrameV>, fuel: nat) -> Result<
    (Option<NumberView>, Seq<FrameV>),
    CalcErrorV,
>
    decreases fuel, 1nat,
{
    match s {
        StmtV::Assign(name, e) => match eval_expr_spec(e, c, fuel) {
            Err(x) => Err(x),
            Ok(v) => match bind_value_in(c, name, v) {
                Ok(c2) => Ok((Some(v), c2)),
                Err(x) => Err(x),
            },
        },
        StmtV::FuncDef(name, params, body) => match bind_fn_in(
            c,
            name,
            CallableV::User { params, body, captured: c },
        ) {
            Ok(c2) => Ok((None, c2)),
            Err(x) => Err(x),
        },
        StmtV::ExprStmt(e) => match eval_expr_spec(e, c, fuel) {
            Ok(v) => Ok((Some(v), c)),
            Err(x) => Err(x),
        },
    }
}

/// Context after the statements `stmts[i..]`, in order; the first failure
/// stops them.
pub open spec fn eval_stmts_spec(stmts: Seq<StmtV>, i: int, c: Seq<FrameV>, fuel: nat) -> Result<
    Seq<FrameV>,
    CalcErrorV,
>
    decreases fuel, (if i < stmts.len() { stmts.len() - i } else { 0 }) + 2,
{
    if i < 0 || i >= stmts.len() {
        Ok(c)
    } else {
        match eval_stmt_spec(stmts[i], c, fuel) {
            Err(x) => Err(x),
            Ok((_, c2)) => eval_stmts_spec(stmts, i + 1, c2, fuel),
        }
    }
}

/// `r` with the values `p` put in front of its values.
pub open spec fn prepend(p: Seq<NumberView>, r: Result<Seq<NumberView>, CalcErrorV>) -> Result<
    Seq<NumberView>,
    CalcErrorV,
> {
    match r {
        Ok(vs) => Ok(p + vs),
        Err(x) => Err(x),
    }
}

/// The view of a statement's outcome.
pub open spec fn stmt_result_view(r: Result<Option<Number>, CalcError>) -> Result<
    Option<NumberView>,
    CalcErrorV,
> {
    match r {
        Ok(Some(v)) => Ok(Some(v@)),
        Ok(None) => Ok(None),
        Err(e) => Err(e@),
    }
}

fn apply_op(op: BinaryOp, a: &Number, b: &Number) -> (r: Number)
    ensures
        r@ == apply_binary(op, a@, b@),
{
    match op {
        BinaryOp::Plus => num_add(a, b),
        BinaryOp::Minus => num_sub(a, b),
        BinaryOp::Times => num_mul(a, b),
        BinaryOp::Divide => num_div(a, b),
        BinaryOp::Power => num_pow(a, b),
    }
}

/// Value of an atom: a number is itself, a symbol is looked up.
pub fn eval_atom(atom: &Atom, ctx: &Context) -> (r: Result<Number, CalcError>)
    ensures
        result_view(r) == eval_atom_spec(atom_view(*atom), ctx@),
{
    match atom {
        Atom::Num(n) => Ok(n.copy()),
        Atom::Symbol(name) => ctx.lookup_value(name.as_str()),
    }
}

fn call_fuel(func: Callable, vals: Vec<Number>, fuel: u64) -> (r: Result<Number, CalcError>)
    requires
        vals@.len() == arity_of(func@),
    ensures
        result_view(r) == call_spec(func@, numbers_view(vals@), fuel as nat),
    decreases fuel, 1nat,
{
    match func {
        Callable::Builtin(b) => {
            let a = &vals[0];
            let v = match b {
                Builtin::Sqrt => num_sqrt(a),
                Builtin::Sin => num_sin(a),
                Builtin::Cos => num_cos(a),
                Builtin::Tan => num_tan(a),
            };
            Ok(v)
        },
        Callable::User(u) => {
            assert(names_view(u.bindings@).len() == u.bindings@.len());
            let (body, scope) = u.enter(vals);
            eval_expr_fuel(&body, &scope, fuel)
        },
    }
}

fn eval_expr_fuel(expr: &Expr, ctx: &Context, fuel: u64) -> (r: Result<Number, CalcError>)
    ensures
        result_view(r) == eval_expr_spec(expr@, ctx@, fuel as nat),
    decreases fuel, 0nat,
{
    if fuel == 0 {
        return Err(CalcError::DepthExceeded);
    }
    let f = fuel - 1;
    match expr {
        Expr::AtomExpr(a) => eval_atom(a, ctx),
        Expr::UnaryExpr { op, data } => match eval_expr_fuel(data, ctx, f) {
            Err(e) => Err(e),
            Ok(v) => match op {
                UnaryOp::Negate => Ok(num_neg(&v)),
            },
        },
        Expr::BinaryExpr { lhs, rhs, op } => match eval_expr_fuel(lhs, ctx, f) {
            Err(e) => Err(e),
            Ok(a) => match eval_expr_fuel(rhs, ctx, f) {
                Err(e) => Err(e),
                Ok(b) => Ok(apply_op(*op, &a, &b)),
            },
        },
        Expr::FunctionCall { function, args } => {
            let ghost av = match expr@ {
                ExprV::Call(_, a) => a,
                _ => Seq::empty(),
            };
            let ghost c = ctx@;
            assert(av.len() == args@.len());
            assert(forall|k: int| 0 <= k < args@.len() ==> av[k] == #[trigger] args@[k]@);
            match ctx.lookup_fn(function.as_str()) {
                Err(e) => Err(e),
                Ok(func) => {
                    let mut vals: Vec<Number> = Vec::new();
                    let mut i: usize = 0;
                    assert(numbers_view(vals@) =~= Seq::empty());
                    assert(prepend(Seq::empty(), eval_args_spec(av, 0, c, f as nat))
                        =~~= eval_args_spec(av, 0, c, f as nat));
                    while i < args.len()
                        invariant
                            i <= args@.len(),
                            c == ctx@,
                            fuel > 0,
                            f == fuel - 1,
                            expr@ == ExprV::Call(function@, av),
                            lookup_fn_in(c, function@) == Some(func@),
                            av.len() == args@.len(),
                            forall|k: int| 0 <= k < args@.len() ==> av[k] == #[trigger] args@[k]@,
                            eval_args_spec(av, 0, c, f as nat) == prepend(
                                numbers_view(vals@),
                                eval_args_spec(av, i as int, c, f as nat),
                            ),
                            vals@.len() == i,
                        decreases args@.len() - i,
                    {
                        let ghost p = numbers_view(vals@);
                        match eval_expr_fuel(&args[i], ctx, f) {
                            Err(e) => {
                                return Err(e);
                            },
                            Ok(v) => {
                                let ghost vv = v@;
                                vals.push(v);
                                assert(numbers_view(vals@) =~= p.push(vv));
                                proof {
                                    match eval_args_spec(av, i + 1, c, f as nat) {
                                        Ok(vs) => {
                                            assert(p + (seq![vv] + vs) =~= p.push(vv) + vs);
                                        },
                                        Err(_) => {},
                                    }
                                }
                            },
                        }
                        i = i + 1;
                    }
                    assert(eval_args_spec(av, i as int, c, f as nat) == Ok::<Seq<NumberView>, CalcErrorV>(
                        Seq::empty(),
                    ));
                    assert(numbers_view(vals@) + Seq::empty() =~= numbers_view(vals@));
                    let n = func.arity();
                    if vals.len() != n {
                        return Err(CalcError::IncorrectArity(n, vals.len()));
                    }
                    call_fuel(func, vals, f)
                },
            }
        },
        Expr::BlockExpr { stmts, final_expr } => {
            let ghost sv = match expr@ {
                ExprV::Block(s, _) => s,
                _ => Seq::empty(),
            };
            let ghost fv = match expr@ {
                ExprV::Block(_, x) => *x,
                _ => expr@,
            };
            assert(sv.len() == stmts@.len());
            assert(forall|k: int| 0 <= k < stmts@.len() ==> sv[k] == #[trigger] stmts@[k]@);
            let mut scope = ctx.copy();
            let nothing: Vec<(String, Number)> = Vec::new();
            assert(crate::context::pairs_view(nothing@) =~= Seq::empty());
            scope.add_scope(nothing);
            assert(scope@ =~= ctx@.push(empty_frame()));
            let ghost c0 = scope@;
            let mut i: usize = 0;
            while i < stmts.len()
                invariant
                    i <= stmts@.len(),
                    fuel > 0,
                    f == fuel - 1,
                    expr@ == ExprV::Block(sv, Box::new(fv)),
                    fv == (**final_expr)@,
                    c0 == ctx@.push(empty_frame()),
                    sv.len() == stmts@.len(),
                    forall|k: int| 0 <= k < stmts@.len() ==> sv[k] == #[trigger] stmts@[k]@,
                    scope@.len() > 0,
                    eval_stmts_spec(sv, 0, c0, f as nat) == eval_stmts_spec(
                        sv,
                        i as int,
                        scope@,
                        f as nat,
                    ),
                decreases stmts@.len() - i,
            {
                match eval_stmt_fuel(&stmts[i], &mut scope, f) {
                    Err(e) => {
                        return Err(e);
                    },
                    Ok(_) => {},
                }
                i = i + 1;
            }
            eval_expr_fuel(final_expr, &scope, f)
        },
    }
}

fn eval_stmt_fuel(stmt: &Stmt, ctx: &mut Context, fuel: u64) -> (r: Result<Option<Number>, CalcError>)
    requires
        old(ctx)@.len() > 0,
    ensures
        stmt_result_view(r) == match eval_stmt_spec(stmt@, old(ctx)@, fuel as nat) {
            Ok((v, _)) => Ok(v),
            Err(x) => Err(x),
        },
        final(ctx)@ == match eval_stmt_spec(stmt@, old(ctx)@, fuel as nat) {
            Ok((_, c2)) => c2,
            Err(_) => old(ctx)@,
        },
        final(ctx)@.len() == old(ctx)@.len(),
    decreases fuel, 1nat,
{
    match stmt {
        Stmt::Assignment { name, value } => match eval_expr_fuel(value, ctx, fuel) {
            Err(e) => Err(e),
            Ok(v) => match ctx.bind_value(name.clone(), v) {
                Ok(b) => Ok(Some(b)),
                Err(e) => Err(e),
            },
        },
        Stmt::FuncDef { name, params, body } => {
            let f = CalcFunc { bindings: copy_names(params), body: body.copy(), captured: ctx.copy() };
            match ctx.bind_fn(name.clone(), f) {
                Ok(()) => Ok(None),
                Err(e) => Err(e),
            }
        },
        Stmt::ExprStmt(e) => match eval_expr_fuel(e, ctx, fuel) {
            Err(e) => Err(e),
            Ok(v) => Ok(Some(v)),
        },
    }
}

/// Value of an expression in a context.
pub fn eval_expr(expr: &Expr, ctx: &Context) -> (r: Result<Number, CalcError>)
    ensures
        result_view(r) == eval_expr_spec(expr@, ctx@, MAX_DEPTH as nat),
{
    eval_expr_fuel(expr, ctx, MAX_DEPTH)
}

/// Runs a statement against a context: an assignment binds and yields its
/// value, a definition binds a function capturing the context, an expression
/// yields its value. On failure the context is left as it was.
pub fn eval_stmt(stmt: &Stmt, ctx: &mut Context) -> (r: Result<Option<Number>, CalcError>)
    requires
        old(ctx)@.len() > 0,
    ensures
        stmt_result_view(r) == match eval_stmt_spec(stmt@, old(ctx)@, MAX_DEPTH as nat) {
            Ok((v, _)) => Ok(v),
            Err(x) => Err(x),
        },
        final(ctx)@ == match eval_stmt_spec(stmt@, old(ctx)@, MAX_DEPTH as nat) {
            Ok((_, c2)) => c2,
            Err(_) => old(ctx)@,
        },
        final(ctx)@.len() == old(ctx)@.len(),
{
    eval_stmt_fuel(stmt, ctx, MAX_DEPTH)
}

/// A number literal evaluates to itself, in any context.
pub proof fn lemma_number_evaluates_to_itself(n: NumberView, c: Seq<FrameV>, fuel: nat)
    requires
        fuel > 0,
    ensures
        eval_expr_spec(ExprV::Atom(AtomV::Num(n)), c, fuel) == Ok::<NumberView, CalcErrorV>(n),
{
}

/// After `name` is bound to `v` in the current frame, the symbol `name`
/// evaluates to `v`.
pub proof fn lemma_bound_symbol(c: Seq<FrameV>, name: Seq<char>, v: NumberView, c2: Seq<FrameV>)
    requires
        c.len() > 0,
        bind_value_in(c, name, v) == Ok::<Seq<FrameV>, CalcErrorV>(c2),
    ensures
        eval_atom_spec(AtomV::Symbol(name), c2) == Ok::<NumberView, CalcErrorV>(v),
{
    assert(c2.last().values.last() == (name, v));
}

/// A symbol that no frame binds fails with `NameNotFound`.
pub proof fn lemma_unbound_symbol(c: Seq<FrameV>, name: Seq<char>)
    requires
        lookup_value_in(c, name) is None,
    ensures
        eval_atom_spec(AtomV::Symbol(name), c) == Err::<NumberView, CalcErrorV>(
            CalcErrorV::NameNotFound(name),
        ),
{
}

/// Binding a name a second time in the same frame fails with `NameAlreadyBound`.
pub proof fn lemma_rebinding_fails(
    c: Seq<FrameV>,
    name: Seq<char>,
    v: NumberView,
    w: NumberView,
    c2: Seq<FrameV>,
)
    requires
        c.len() > 0,
        bind_value_in(c, name, v) == Ok::<Seq<FrameV>, CalcErrorV>(c2),
    ensures
        bind_value_in(c2, name, w) == Err::<Seq<FrameV>, CalcErrorV>(
            CalcErrorV::NameAlreadyBound(name),
        ),
{
    assert(c2.last().values.last() == (name, v));
}

/// Binding a name in a pushed frame succeeds whatever the outer frames bind;
/// lookups then see the new value, and the outer frames are unchanged.
pub proof fn lemma_shadowing(c: Seq<FrameV>, name: Seq<char>, v: NumberView)
    ensures
        bind_value_in(c.push(empty_frame()), name, v) matches Ok(c2) && lookup_value_in(c2, name)
            == Some(v) && c2.drop_last() == c,
{
    let c1 = c.push(empty_frame());
    let c2 = c1.update(c1.len() - 1, FrameV { values: seq![(name, v)], functions: Seq::empty() });
    assert(c1.last().values.push((name, v)) =~= seq![(name, v)]);
    assert(c2.drop_last() =~= c);
    assert(c2.last().values.last() == (name, v));
}

/// A call whose arguments evaluate to as many values as the callee takes
/// runs the callee on them; any other count fails with `IncorrectArity`.
pub proof fn lemma_call_arity(name: Seq<char>, args: Seq<ExprV>, c: Seq<FrameV>, fuel: nat)
    requires
        fuel > 0,
        lookup_fn_in(c, name) is Some,
        eval_args_spec(args, 0, c, (fuel - 1) as nat) is Ok,
    ensures
        ({
            let f = lookup_fn_in(c, name)->0;
            let vals = eval_args_spec(args, 0, c, (fuel - 1) as nat)->Ok_0;
            eval_expr_spec(ExprV::Call(name, args), c, fuel) == if vals.len() == arity_of(f) {
                call_spec(f, vals, (fuel - 1) as nat)
            } else {
                Err(CalcErrorV::IncorrectArity(arity_of(f), vals.len()))
            }
        }),
{
}

} // verus!
