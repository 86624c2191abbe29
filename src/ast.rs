//! Syntax trees of statements and expressions, and their spec models.

use crate::number::{Number, NumberView};
use vstd::prelude::*;

verus! {

broadcast use vstd::std_specs::vec::group_vec_axioms;

#[derive(Debug, Clone)]
pub enum Atom {
    Symbol(String),
    Num(Number),
}

#[derive(Debug, Clone, Copy, PartialEq, Eq, Structural)]
pub enum BinaryOp {
    Plus,
    Minus,
    Times,
    Divide,
    Power,
}

#[derive(Debug, Clone, Copy, PartialEq, Eq, Structural)]
pub enum UnaryOp {
    Negate,
}

#[derive(Debug)]
pub enum Expr {
    AtomExpr(Atom),
    UnaryExpr { op: UnaryOp, data: Box<Expr> },
    BinaryExpr { lhs: Box<Expr>, rhs: Box<Expr>, op: BinaryOp },
    FunctionCall { function: String, args: Vec<Expr> },
    BlockExpr { stmts: Vec<Stmt>, final_expr: Box<Expr> },
}

#[derive(Debug)]
pub enum Stmt {
    FuncDef { name: String, params: Vec<String>, body: Expr },
    Assignment { name: String, value: Expr },
    ExprStmt(Expr),
}

/// What an `Atom` holds.
pub enum AtomV {
    Symbol(Seq<char>),
    Num(NumberView),
}

/// What an `Expr` holds.
pub enum ExprV {
    Atom(AtomV),
    Unary(UnaryOp, Box<ExprV>),
    Binary(BinaryOp, Box<ExprV>, Box<ExprV>),
    Call(Seq<char>, Seq<ExprV>),
    Block(Seq<StmtV>, Box<ExprV>),
}

/// What a `Stmt` holds.
pub enum StmtV {
    FuncDef(Seq<char>, Seq<Seq<char>>, ExprV),
    Assign(Seq<char>, ExprV),
    ExprStmt(ExprV),
}

pub open spec fn atom_view(a: Atom) -> AtomV {
    match a {
        Atom::Symbol(s) => AtomV::Symbol(s@),
        Atom::Num(n) => AtomV::Num(n@),
    }
}

/// The names held by a list of strings.
pub open spec fn names_view(v: Seq<String>) -> Seq<Seq<char>> {
    Seq::new(v.len(), |i: int| v[i]@)
}

pub open spec fn expr_view(e: Expr) -> ExprV
    decreases e,
{
    match e {
        Expr::AtomExpr(a) => ExprV::Atom(atom_view(a)),
        Expr::UnaryExpr { op, data } => ExprV::Unary(op, Box::new(expr_view(*data))),
        Expr::BinaryExpr { lhs, rhs, op } => ExprV::Binary(
            op,
            Box::new(expr_view(*lhs)),
            Box::new(expr_view(*rhs)),
        ),
        Expr::FunctionCall { function, args } => ExprV::Call(
            function@,
            Seq::new(
                args@.len(),
                |i: int|
                    if 0 <= i < args@.len() {
                        expr_view(args@[i])
                    } else {
                        ExprV::Atom(AtomV::Num(NumberView::NotANumber))
                    },
            ),
        ),
        Expr::BlockExpr { stmts, final_expr } => ExprV::Block(
            Seq::new(
                stmts@.len(),
                |i: int|
                    if 0 <= i < stmts@.len() {
                        stmt_view(stmts@[i])
                    } else {
                        StmtV::ExprStmt(ExprV::Atom(AtomV::Num(NumberView::NotANumber)))
                    },
            ),
            Box::new(expr_view(*final_expr)),
        ),
    }
}

pub open spec fn stmt_view(s: Stmt) -> StmtV
    decreases s,
{
    match s {
        Stmt::FuncDef { name, params, body } => StmtV::FuncDef(
            name@,
            names_view(params@),
            expr_view(body),
        ),
        Stmt::Assignment { name, value } => StmtV::Assign(name@, expr_view(value)),
        Stmt::ExprStmt(e) => StmtV::ExprStmt(expr_view(e)),
    }
}

impl View for Expr {
    type V = ExprV;

    open spec fn view(&self) -> ExprV {
        expr_view(*self)
    }
}

impl View for Stmt {
    type V = StmtV;

    open spec fn view(&self) -> StmtV {
        stmt_view(*self)
    }
}

/// A copy of a list of names.
pub fn copy_names(v: &Vec<String>) -> (r: Vec<String>)
    ensures
        names_view(r@) == names_view(v@),
{
    let mut r: Vec<String> = Vec::new();
    let mut i: usize = 0;
    while i < v.len()
        invariant
            i <= v@.len(),
            r@.len() == i,
            forall|k: int| 0 <= k < i ==> r@[k]@ == v@[k]@,
        decreases v@.len() - i,
    {
        r.push(v[i].clone());
        i = i + 1;
    }
    assert(names_view(r@) =~= names_view(v@));
    r
}

impl Atom {
    pub fn copy(&self) -> (r: Atom)
        ensures
            atom_view(r) == atom_view(*self),
    {
        match self {
            Atom::Symbol(s) => Atom::Symbol(s.clone()),
            Atom::Num(n) => Atom::Num(n.copy()),
        }
    }
}

impl Expr {
    /// A copy of the expression tree.
    pub fn copy(&self) -> (r: Expr)
        ensures
            r@ == self@,
        decreases self,
    {
        match self {
            Expr::AtomExpr(a) => {
                let r = Expr::AtomExpr(a.copy());
                assert(r@ == self@);
                r
            },
            Expr::UnaryExpr { op, data } => {
                let r = Expr::UnaryExpr { op: *op, data: Box::new((**data).copy()) };
                assert(r@ == self@);
                r
            },
            Expr::BinaryExpr { lhs, rhs, op } => Expr::BinaryExpr {
                lhs: Box::new((**lhs).copy()),
                rhs: Box::new((**rhs).copy()),
                op: *op,
            },
            Expr::FunctionCall { function, args } => {
                let mut out: Vec<Expr> = Vec::new();
                let mut i: usize = 0;
                while i < args.len()
                    invariant
                        i <= args@.len(),
                        out@.len() == i,
                        *self == (Expr::FunctionCall { function: *function, args: *args }),
                        forall|k: int| 0 <= k < i ==> expr_view(out@[k]) == expr_view(args@[k]),
                    decreases args@.len() - i,
                {
                    proof {
                        let ghost v = *args;
                        assert(decreases_to!(*self => (*self)->args));
                        assert(decreases_to!(v => v@));
                        assert(decreases_to!(v@ => v@[i as int]));
                    }
                    out.push(args[i].copy());
                    i = i + 1;
                }
                let r = Expr::FunctionCall { function: function.clone(), args: out };
                proof {
                    let s1 = expr_view(r);
                    let s2 = expr_view(*self);
                    assert(s1 is Call);
                    assert(s2 is Call);
                    assert(s1->Call_0 == s2->Call_0);
                    assert(s1->Call_1.len() == s2->Call_1.len());
                    assert forall|k: int| 0 <= k < s1->Call_1.len() implies s1->Call_1[k] == s2->Call_1[k] by {
                        assert(expr_view(out@[k]) == expr_view(args@[k]));
                    }
                    assert(s1->Call_1 =~= s2->Call_1);
                }
                r
            },
            Expr::BlockExpr { stmts, final_expr } => {
                let mut out: Vec<Stmt> = Vec::new();
                let mut i: usize = 0;
                while i < stmts.len()
                    invariant
                        i <= stmts@.len(),
                        out@.len() == i,
                        *self == (Expr::BlockExpr { stmts: *stmts, final_expr: *final_expr }),
                        forall|k: int| 0 <= k < i ==> stmt_view(out@[k]) == stmt_view(stmts@[k]),
                    decreases stmts@.len() - i,
                {
                    proof {
                        let ghost v = *stmts;
                        assert(decreases_to!(*self => (*self)->stmts));
                        assert(decreases_to!(v => v@));
                        assert(decreases_to!(v@ => v@[i as int]));
                    }
                    out.push(stmts[i].copy());
                    i = i + 1;
                }
                let r = Expr::BlockExpr { stmts: out, final_expr: Box::new((**final_expr).copy()) };
                proof {
                    let s1 = expr_view(r);
                    let s2 = expr_view(*self);
                    assert(s1->Block_1 == s2->Block_1);
                    assert(s1->Block_0.len() == s2->Block_0.len());
                    assert forall|k: int| 0 <= k < s1->Block_0.len() implies s1->Block_0[k] == s2->Block_0[k] by {
                        assert(stmt_view(out@[k]) == stmt_view(stmts@[k]));
                    }
                    assert(s1->Block_0 =~= s2->Block_0);
                }
                r
            },
        }
    }
}

impl Stmt {
    /// A copy of the statement.
    pub fn copy(&self) -> (r: Stmt)
        ensures
            r@ == self@,
        decreases self,
    {
        match self {
            Stmt::FuncDef { name, params, body } => Stmt::FuncDef {
                name: name.clone(),
                params: copy_names(params),
                body: body.copy(),
            },
            Stmt::Assignment { name, value } => Stmt::Assignment {
                name: name.clone(),
                value: value.copy(),
            },
            Stmt::ExprStmt(e) => Stmt::ExprStmt(e.copy()),
        }
    }
}

} // verus!
