//! The grammar of statements, and a recursive-descent parser for it.
//!
//! ```text
//! stmt     := symbol '=' expr ';' | expr ';'
//! expr     := term (('+' | '-') term)*
//! term     := exponent (('*' | '/') exponent)*
//! exponent := parens ('^' exponent)?
//! parens   := '(' expr ')' | symbol '(' (expr (',' expr)*)? ')' | number | symbol
//! ```
//!
//! Whitespace may surround any token. A parse yields `Ok(None)` where the
//! input does not match, and an error where a numeric literal matches the
//! grammar but is no number.

use crate::ast::{atom_view, Atom, AtomV, BinaryOp, Expr, ExprV, Stmt, StmtV};
use crate::format::string_from_chars;
use crate::number::{parse_decimal, parsed_of, Number};
use crate::{result_view, CalcError, CalcErrorV};
use vstd::prelude::*;

verus! {

/// Outcome of parsing at a position: what was parsed and the position after it.
pub type Parsed<T> = Result<Option<(T, int)>, CalcErrorV>;

pub open spec fn is_ws(c: char) -> bool {
    c == ' ' || c == '\t' || c == '\n' || c == '\r'
}

pub open spec fn is_digit(c: char) -> bool {
    '0' <= c && c <= '9'
}

pub open spec fn is_symbol_char(c: char) -> bool {
    c != '(' && c != ')' && c != '"' && c != ';' && c != ',' && !is_ws(c)
}

/// Whether `s[p]` exists and is `c`.
pub open spec fn at(s: Seq<char>, p: int, c: char) -> bool {
    0 <= p < s.len() && s[p] == c
}

/// Whether `s[p]` exists and is a digit.
pub open spec fn digit_at(s: Seq<char>, p: int) -> bool {
    0 <= p < s.len() && is_digit(s[p])
}

/// First position at or after `p` that is not whitespace.
pub open spec fn skip_ws(s: Seq<char>, p: int) -> int
    decreases s.len() - p,
{
    if 0 <= p < s.len() && is_ws(s[p]) {
        skip_ws(s, p + 1)
    } else {
        p
    }
}

/// First position at or after `p` that is not a digit.
pub open spec fn skip_digits(s: Seq<char>, p: int) -> int
    decreases s.len() - p,
{
    if digit_at(s, p) {
        skip_digits(s, p + 1)
    } else {
        p
    }
}

/// First position at or after `p` that is not a symbol character.
pub open spec fn skip_symbol(s: Seq<char>, p: int) -> int
    decreases s.len() - p,
{
    if 0 <= p < s.len() && is_symbol_char(s[p]) {
        skip_symbol(s, p + 1)
    } else {
        p
    }
}

/// A symbol at `p`: a maximal run of symbol characters not starting with a digit.
pub open spec fn symbol_at(s: Seq<char>, p: int) -> Option<(Seq<char>, int)> {
    if 0 <= p < s.len() && is_symbol_char(s[p]) && !is_digit(s[p]) {
        let e = skip_symbol(s, p);
        Some((s.subrange(p, e), e))
    } else {
        None
    }
}

/// End of the optional exponent suffix starting at `q`.
pub open spec fn exponent_end(s: Seq<char>, q: int) -> int {
    if at(s, q, 'e') || at(s, q, 'E') {
        let r = if at(s, q + 1, '+') || at(s, q + 1, '-') {
            q + 2
        } else {
            q + 1
        };
        if digit_at(s, r) {
            skip_digits(s, r)
        } else {
            q
        }
    } else {
        q
    }
}

/// End of a numeric literal at `p`: optional sign, digits with an optional
/// fraction or a fraction alone, optional exponent.
pub open spec fn number_end(s: Seq<char>, p: int) -> Option<int> {
    let q = if at(s, p, '+') || at(s, p, '-') {
        p + 1
    } else {
        p
    };
    if digit_at(s, q) {
        let d = skip_digits(s, q);
        let f = if at(s, d, '.') {
            skip_digits(s, d + 1)
        } else {
            d
        };
        Some(exponent_end(s, f))
    } else if at(s, q, '.') && digit_at(s, q + 1) {
        Some(exponent_end(s, skip_digits(s, q + 1)))
    } else {
        None
    }
}

/// An atom after optional whitespace: a number, else a symbol.
pub open spec fn p_atom(s: Seq<char>, p: int) -> Parsed<AtomV> {
    let q = skip_ws(s, p);
    match number_end(s, q) {
        Some(e) => {
            let v = parsed_of(s.subrange(q, e));
            if v is NotANumber {
                Err(CalcErrorV::ParseNum)
            } else {
                Ok(Some((AtomV::Num(v), e)))
            }
        },
        None => match symbol_at(s, q) {
            Some((name, e)) => Ok(Some((AtomV::Symbol(name), e))),
            None => Ok(None),
        },
    }
}

pub open spec fn add_op(c: char) -> Option<BinaryOp> {
    if c == '+' {
        Some(BinaryOp::Plus)
    } else if c == '-' {
        Some(BinaryOp::Minus)
    } else {
        None
    }
}

pub open spec fn mul_op(c: char) -> Option<BinaryOp> {
    if c == '*' {
        Some(BinaryOp::Times)
    } else if c == '/' {
        Some(BinaryOp::Divide)
    } else {
        None
    }
}

/// The operator at `p`: `*` or `/` where `mul`, else `+` or `-`.
pub open spec fn op_at(s: Seq<char>, p: int, mul: bool) -> Option<BinaryOp> {
    if 0 <= p < s.len() {
        if mul {
            mul_op(s[p])
        } else {
            add_op(s[p])
        }
    } else {
        None
    }
}

pub open spec fn binary(op: BinaryOp, l: ExprV, r: ExprV) -> ExprV {
    ExprV::Binary(op, Box::new(l), Box::new(r))
}

/// `expr` at `p`.
pub open spec fn p_expr(s: Seq<char>, p: int) -> Parsed<ExprV>
    decreases s.len() - p, 6nat,
{
    match p_term(s, p) {
        Err(x) => Err(x),
        Ok(None) => Ok(None),
        Ok(Some((t, q))) => if p < q <= s.len() {
            p_chain(s, t, q, false)
        } else {
            Ok(None)
        },
    }
}

/// `term` at `p`.
pub open spec fn p_term(s: Seq<char>, p: int) -> Parsed<ExprV>
    decreases s.len() - p, 4nat,
{
    match p_exponent(s, p) {
        Err(x) => Err(x),
        Ok(None) => Ok(None),
        Ok(Some((t, q))) => if p < q <= s.len() {
            p_chain(s, t, q, true)
        } else {
            Ok(None)
        },
    }
}

/// Operands that follow `acc`, joined to it from the left: `*` and `/`
/// exponents where `mul`, else `+` and `-` terms. A trailing operator with no
/// operand after it is left unconsumed.
pub open spec fn p_chain(s: Seq<char>, acc: ExprV, p: int, mul: bool) -> Parsed<ExprV>
    decreases s.len() - p, 5nat,
{
    let r = skip_ws(s, p);
    match op_at(s, r, mul) {
        None => Ok(Some((acc, p))),
        Some(op) => if r < p || r >= s.len() {
            Ok(Some((acc, p)))
        } else {
            match (if mul {
                p_exponent(s, r + 1)
            } else {
                p_term(s, r + 1)
            }) {
                Err(x) => Err(x),
                Ok(None) => Ok(Some((acc, p))),
                Ok(Some((t, q))) => if p < q <= s.len() {
                    p_chain(s, binary(op, acc, t), q, mul)
                } else {
                    Ok(None)
                },
            }
        },
    }
}

/// `exponent` at `p`: right-associative `^`.
pub open spec fn p_exponent(s: Seq<char>, p: int) -> Parsed<ExprV>
    decreases s.len() - p, 3nat,
{
    match p_parens(s, p) {
        Err(x) => Err(x),
        Ok(None) => Ok(None),
        Ok(Some((b, q))) => {
            let r = skip_ws(s, q);
            if at(s, r, '^') && r >= p {
                match p_exponent(s, r + 1) {
                    Err(x) => Err(x),
                    Ok(None) => Ok(Some((b, q))),
                    Ok(Some((e, t))) => Ok(Some((binary(BinaryOp::Power, b, e), t))),
                }
            } else {
                Ok(Some((b, q)))
            }
        },
    }
}

/// `parens` at `p`: a parenthesized expression, a call, or an atom.
pub open spec fn p_parens(s: Seq<char>, p: int) -> Parsed<ExprV>
    decreases s.len() - p, 2nat,
{
    let q = skip_ws(s, p);
    if at(s, q, '(') && q >= p {
        match p_expr(s, q + 1) {
            Err(x) => Err(x),
            Ok(None) => Ok(None),
            Ok(Some((e, r))) => {
                let t = skip_ws(s, r);
                if at(s, t, ')') {
                    Ok(Some((e, t + 1)))
                } else {
                    Ok(None)
                }
            },
        }
    } else {
        match symbol_at(s, q) {
            Some((name, e)) => {
                let o = skip_ws(s, e);
                if at(s, o, '(') && o >= p {
                    match p_args(s, o + 1) {
                        Err(x) => Err(x),
                        Ok(None) => Ok(None),
                        Ok(Some((args, r))) => Ok(Some((ExprV::Call(name, args), r))),
                    }
                } else {
                    match p_atom(s, p) {
                        Err(x) => Err(x),
                        Ok(None) => Ok(None),
                        Ok(Some((a, r))) => Ok(Some((ExprV::Atom(a), r))),
                    }
                }
            },
            None => match p_atom(s, p) {
                Err(x) => Err(x),
                Ok(None) => Ok(None),
                Ok(Some((a, r))) => Ok(Some((ExprV::Atom(a), r))),
            },
        }
    }
}

/// Arguments of a call after its `(`, through the closing `)`.
pub open spec fn p_args(s: Seq<char>, p: int) -> Parsed<Seq<ExprV>>
    decreases s.len() - p, 8nat,
{
    let q = skip_ws(s, p);
    if at(s, q, ')') {
        Ok(Some((Seq::empty(), q + 1)))
    } else {
        match p_expr(s, p) {
            Err(x) => Err(x),
            Ok(None) => Ok(None),
            Ok(Some((e, r))) => if p < r <= s.len() {
                p_args_rest(s, seq![e], r)
            } else {
                Ok(None)
            },
        }
    }
}

/// Further arguments after `acc`: `, expr` pairs, then `)`.
pub open spec fn p_args_rest(s: Seq<char>, acc: Seq<ExprV>, p: int) -> Parsed<Seq<ExprV>>
    decreases s.len() - p, 7nat,
{
    let q = skip_ws(s, p);
    if at(s, q, ')') {
        Ok(Some((acc, q + 1)))
    } else if at(s, q, ',') && q >= p {
        match p_expr(s, q + 1) {
            Err(x) => Err(x),
            Ok(None) => Ok(None),
            Ok(Some((e, r))) => if p < r <= s.len() {
                p_args_rest(s, acc.push(e), r)
            } else {
                Ok(None)
            },
        }
    } else {
        Ok(None)
    }
}

/// A statement at `p`, through its `;`: an assignment where one matches,
/// else an expression.
pub open spec fn p_stmt(s: Seq<char>, p: int) -> Parsed<StmtV> {
    let assign: Parsed<StmtV> = match symbol_at(s, skip_ws(s, p)) {
        None => Ok(None),
        Some((name, e)) => {
            let q = skip_ws(s, e);
            if at(s, q, '=') {
                match p_expr(s, q + 1) {
                    Err(x) => Err(x),
                    Ok(None) => Ok(None),
                    Ok(Some((v, r))) => {
                        let t = skip_ws(s, r);
                        if at(s, t, ';') {
                            Ok(Some((StmtV::Assign(name, v), t + 1)))
                        } else {
                            Ok(None)
                        }
                    },
                }
            } else {
                Ok(None)
            }
        },
    };
    match assign {
        Err(x) => Err(x),
        Ok(Some(a)) => Ok(Some(a)),
        Ok(None) => match p_expr(s, p) {
            Err(x) => Err(x),
            Ok(None) => Ok(None),
            Ok(Some((v, r))) => {
                let t = skip_ws(s, r);
                if at(s, t, ';') {
                    Ok(Some((StmtV::ExprStmt(v), t + 1)))
                } else {
                    Ok(None)
                }
            },
        },
    }
}

pub open spec fn parsed_atom(r: Result<Option<(Atom, usize)>, CalcError>) -> Parsed<AtomV> {
    match r {
        Ok(Some((a, q))) => Ok(Some((atom_view(a), q as int))),
        Ok(None) => Ok(None),
        Err(x) => Err(x@),
    }
}

pub open spec fn parsed_expr(r: Result<Option<(Expr, usize)>, CalcError>) -> Parsed<ExprV> {
    match r {
        Ok(Some((e, q))) => Ok(Some((e@, q as int))),
        Ok(None) => Ok(None),
        Err(x) => Err(x@),
    }
}

pub open spec fn exprs_view(v: Seq<Expr>) -> Seq<ExprV> {
    Seq::new(v.len(), |i: int| v[i]@)
}

pub open spec fn parsed_exprs(r: Result<Option<(Vec<Expr>, usize)>, CalcError>) -> Parsed<
    Seq<ExprV>,
> {
    match r {
        Ok(Some((v, q))) => Ok(Some((exprs_view(v@), q as int))),
        Ok(None) => Ok(None),
        Err(x) => Err(x@),
    }
}

pub open spec fn parsed_stmt(r: Result<Option<(Stmt, usize)>, CalcError>) -> Parsed<StmtV> {
    match r {
        Ok(Some((st, q))) => Ok(Some((st@, q as int))),
        Ok(None) => Ok(None),
        Err(x) => Err(x@),
    }
}

/// Whether a parse result ends within the input.
pub open spec fn ends_within<T>(r: Result<Option<(T, usize)>, CalcError>, n: nat) -> bool {
    r matches Ok(Some((_, q))) ==> q <= n
}

fn is_ws_char(c: char) -> (r: bool)
    ensures
        r == is_ws(c),
{
    c == ' ' || c == '\t' || c == '\n' || c == '\r'
}

fn is_digit_char(c: char) -> (r: bool)
    ensures
        r == is_digit(c),
{
    '0' <= c && c <= '9'
}

fn is_symbol_char_exec(c: char) -> (r: bool)
    ensures
        r == is_symbol_char(c),
{
    c != '(' && c != ')' && c != '"' && c != ';' && c != ',' && !is_ws_char(c)
}

fn char_is(s: &Vec<char>, p: usize, c: char) -> (r: bool)
    ensures
        r == at(s@, p as int, c),
{
    p < s.len() && s[p] == c
}

fn skip_ws_exec(s: &Vec<char>, p: usize) -> (r: usize)
    requires
        p <= s@.len(),
    ensures
        r == skip_ws(s@, p as int),
        p <= r <= s@.len(),
{
    let mut q = p;
    while q < s.len() && is_ws_char(s[q])
        invariant
            p <= q <= s@.len(),
            skip_ws(s@, p as int) == skip_ws(s@, q as int),
        decreases s@.len() - q,
    {
        q = q + 1;
    }
    q
}

fn skip_digits_exec(s: &Vec<char>, p: usize) -> (r: usize)
    requires
        p <= s@.len(),
    ensures
        r == skip_digits(s@, p as int),
        p <= r <= s@.len(),
{
    let mut q = p;
    while q < s.len() && is_digit_char(s[q])
        invariant
            p <= q <= s@.len(),
            skip_digits(s@, p as int) == skip_digits(s@, q as int),
        decreases s@.len() - q,
    {
        q = q + 1;
    }
    q
}

fn symbol_at_exec(s: &Vec<char>, p: usize) -> (r: Option<usize>)
    requires
        p <= s@.len(),
    ensures
        r is None <==> symbol_at(s@, p as int) is None,
        r matches Some(e) ==> symbol_at(s@, p as int) == Some((s@.subrange(p as int, e as int), e as int))
            && p < e <= s@.len(),
{
    let n = s.len();
    if p < s.len() && is_symbol_char_exec(s[p]) && !is_digit_char(s[p]) {
        let mut q = p;
        while q < s.len() && is_symbol_char_exec(s[q])
            invariant
                p <= q <= s@.len(),
                skip_symbol(s@, p as int) == skip_symbol(s@, q as int),
            decreases s@.len() - q,
        {
            q = q + 1;
        }
        Some(q)
    } else {
        None
    }
}

fn exponent_end_exec(s: &Vec<char>, q: usize) -> (r: usize)
    requires
        q <= s@.len(),
    ensures
        r == exponent_end(s@, q as int),
        q <= r <= s@.len(),
{
    let n = s.len();
    if char_is(s, q, 'e') || char_is(s, q, 'E') {
        let r = if char_is(s, q + 1, '+') || char_is(s, q + 1, '-') {
            q + 2
        } else {
            q + 1
        };
        if r < s.len() && is_digit_char(s[r]) {
            skip_digits_exec(s, r)
        } else {
            q
        }
    } else {
        q
    }
}

fn number_end_exec(s: &Vec<char>, p: usize) -> (r: Option<usize>)
    requires
        p <= s@.len(),
    ensures
        r is None <==> number_end(s@, p as int) is None,
        r matches Some(e) ==> number_end(s@, p as int) == Some(e as int) && p <= e <= s@.len(),
{
    let n = s.len();
    let q = if char_is(s, p, '+') || char_is(s, p, '-') {
        p + 1
    } else {
        p
    };
    if q < s.len() && is_digit_char(s[q]) {
        let d = skip_digits_exec(s, q);
        let f = if char_is(s, d, '.') {
            skip_digits_exec(s, d + 1)
        } else {
            d
        };
        Some(exponent_end_exec(s, f))
    } else if char_is(s, q, '.') && q + 1 < s.len() && is_digit_char(s[q + 1]) {
        Some(exponent_end_exec(s, skip_digits_exec(s, q + 1)))
    } else {
        None
    }
}

/// The characters `s[from..to]` as a string.
fn text_of(s: &Vec<char>, from: usize, to: usize) -> (r: String)
    requires
        from <= to <= s@.len(),
    ensures
        r@ == s@.subrange(from as int, to as int),
{
    let mut v: Vec<char> = Vec::new();
    let mut k = from;
    while k < to
        invariant
            from <= k <= to,
            to <= s@.len(),
            v@ == s@.subrange(from as int, k as int),
        decreases to - k,
    {
        v.push(s[k]);
        k = k + 1;
        assert(v@ =~= s@.subrange(from as int, k as int));
    }
    string_from_chars(&v)
}

fn parse_atom_at(s: &Vec<char>, p: usize) -> (r: Result<Option<(Atom, usize)>, CalcError>)
    requires
        p <= s@.len(),
    ensures
        parsed_atom(r) == p_atom(s@, p as int),
        ends_within(r, s@.len()),
{
    let q = skip_ws_exec(s, p);
    match number_end_exec(s, q) {
        Some(e) => {
            let text = text_of(s, q, e);
            let v = parse_decimal(text.as_str());
            match v {
                Number::NotANumber => Err(CalcError::ParseNum),
                _ => Ok(Some((Atom::Num(v), e))),
            }
        },
        None => match symbol_at_exec(s, q) {
            Some(e) => Ok(Some((Atom::Symbol(text_of(s, q, e)), e))),
            None => Ok(None),
        },
    }
}

fn op_at_exec(s: &Vec<char>, p: usize, mul: bool) -> (r: Option<BinaryOp>)
    ensures
        r == op_at(s@, p as int, mul),
{
    if p < s.len() {
        let c = s[p];
        if mul {
            if c == '*' {
                Some(BinaryOp::Times)
            } else if c == '/' {
                Some(BinaryOp::Divide)
            } else {
                None
            }
        } else {
            if c == '+' {
                Some(BinaryOp::Plus)
            } else if c == '-' {
                Some(BinaryOp::Minus)
            } else {
                None
            }
        }
    } else {
        None
    }
}

proof fn lemma_call_view(function: String, args: Vec<Expr>)
    ensures
        (Expr::FunctionCall { function, args })@ == ExprV::Call(function@, exprs_view(args@)),
{
    let v = (Expr::FunctionCall { function, args })@;
    assert(v->Call_1.len() == exprs_view(args@).len());
    assert forall|k: int| 0 <= k < v->Call_1.len() implies v->Call_1[k] == exprs_view(args@)[k] by {}
    assert(v->Call_1 =~= exprs_view(args@));
}

fn parse_expr_at(s: &Vec<char>, p: usize) -> (r: Result<Option<(Expr, usize)>, CalcError>)
    requires
        p <= s@.len(),
    ensures
        parsed_expr(r) == p_expr(s@, p as int),
        ends_within(r, s@.len()),
    decreases s@.len() - p, 6nat,
{
    match parse_term_at(s, p) {
        Err(x) => Err(x),
        Ok(None) => Ok(None),
        Ok(Some((t, q))) => if p < q && q <= s.len() {
            parse_chain(s, t, q, false)
        } else {
            Ok(None)
        },
    }
}

fn parse_term_at(s: &Vec<char>, p: usize) -> (r: Result<Option<(Expr, usize)>, CalcError>)
    requires
        p <= s@.len(),
    ensures
        parsed_expr(r) == p_term(s@, p as int),
        ends_within(r, s@.len()),
    decreases s@.len() - p, 4nat,
{
    match parse_exponent_at(s, p) {
        Err(x) => Err(x),
        Ok(None) => Ok(None),
        Ok(Some((t, q))) => if p < q && q <= s.len() {
            parse_chain(s, t, q, true)
        } else {
            Ok(None)
        },
    }
}

fn parse_chain(s: &Vec<char>, acc: Expr, p: usize, mul: bool) -> (r: Result<
    Option<(Expr, usize)>,
    CalcError,
>)
    requires
        p <= s@.len(),
    ensures
        parsed_expr(r) == p_chain(s@, acc@, p as int, mul),
        ends_within(r, s@.len()),
    decreases s@.len() - p, 5nat,
{
    let n = s.len();
    let ghost av = acc@;
    let r = skip_ws_exec(s, p);
    match op_at_exec(s, r, mul) {
        None => Ok(Some((acc, p))),
        Some(op) => {
            if r < p || r >= s.len() {
                return Ok(Some((acc, p)));
            }
            let sub = if mul {
                parse_exponent_at(s, r + 1)
            } else {
                parse_term_at(s, r + 1)
            };
            match sub {
                Err(x) => Err(x),
                Ok(None) => Ok(Some((acc, p))),
                Ok(Some((t, q))) => if p < q && q <= s.len() {
                    let e = Expr::BinaryExpr { lhs: Box::new(acc), rhs: Box::new(t), op };
                    assert(e@ == binary(op, av, t@));
                    parse_chain(s, e, q, mul)
                } else {
                    Ok(None)
                },
            }
        },
    }
}

fn parse_exponent_at(s: &Vec<char>, p: usize) -> (r: Result<Option<(Expr, usize)>, CalcError>)
    requires
        p <= s@.len(),
    ensures
        parsed_expr(r) == p_exponent(s@, p as int),
        ends_within(r, s@.len()),
    decreases s@.len() - p, 3nat,
{
    let n = s.len();
    match parse_parens_at(s, p) {
        Err(x) => Err(x),
        Ok(None) => Ok(None),
        Ok(Some((b, q))) => {
            let r = skip_ws_exec(s, q);
            if char_is(s, r, '^') && r >= p {
                let ghost bv = b@;
                match parse_exponent_at(s, r + 1) {
                    Err(x) => Err(x),
                    Ok(None) => Ok(Some((b, q))),
                    Ok(Some((e, t))) => {
                        let x = Expr::BinaryExpr { lhs: Box::new(b), rhs: Box::new(e), op: BinaryOp::Power };
                        assert(x@ == binary(BinaryOp::Power, bv, e@));
                        Ok(Some((x, t)))
                    },
                }
            } else {
                Ok(Some((b, q)))
            }
        },
    }
}

fn parse_parens_at(s: &Vec<char>, p: usize) -> (r: Result<Option<(Expr, usize)>, CalcError>)
    requires
        p <= s@.len(),
    ensures
        parsed_expr(r) == p_parens(s@, p as int),
        ends_within(r, s@.len()),
    decreases s@.len() - p, 2nat,
{
    let n = s.len();
    let q = skip_ws_exec(s, p);
    if char_is(s, q, '(') && q >= p {
        match parse_expr_at(s, q + 1) {
            Err(x) => Err(x),
            Ok(None) => Ok(None),
            Ok(Some((e, r))) => {
                let t = skip_ws_exec(s, r);
                if char_is(s, t, ')') {
                    Ok(Some((e, t + 1)))
                } else {
                    Ok(None)
                }
            },
        }
    } else {
        if let Some(e) = symbol_at_exec(s, q) {
            let o = skip_ws_exec(s, e);
            if char_is(s, o, '(') && o >= p {
                return match parse_args_at(s, o + 1) {
                    Err(x) => Err(x),
                    Ok(None) => Ok(None),
                    Ok(Some((args, r))) => {
                        let function = text_of(s, q, e);
                        proof {
                            lemma_call_view(function, args);
                        }
                        Ok(Some((Expr::FunctionCall { function, args }, r)))
                    },
                };
            }
        }
        match parse_atom_at(s, p) {
            Err(x) => Err(x),
            Ok(None) => Ok(None),
            Ok(Some((a, r))) => Ok(Some((Expr::AtomExpr(a), r))),
        }
    }
}

fn parse_args_at(s: &Vec<char>, p: usize) -> (r: Result<Option<(Vec<Expr>, usize)>, CalcError>)
    requires
        p <= s@.len(),
    ensures
        parsed_exprs(r) == p_args(s@, p as int),
        ends_within(r, s@.len()),
    decreases s@.len() - p, 8nat,
{
    let n = s.len();
    let q = skip_ws_exec(s, p);
    if char_is(s, q, ')') {
        let v: Vec<Expr> = Vec::new();
        assert(exprs_view(v@) =~= Seq::empty());
        return Ok(Some((v, q + 1)));
    }
    match parse_expr_at(s, p) {
        Err(x) => Err(x),
        Ok(None) => Ok(None),
        Ok(Some((e, r))) => if p < r && r <= s.len() {
            let ghost ev = e@;
            let mut v: Vec<Expr> = Vec::new();
            v.push(e);
            assert(exprs_view(v@) =~= seq![ev]);
            parse_args_rest(s, v, r)
        } else {
            Ok(None)
        },
    }
}

fn parse_args_rest(s: &Vec<char>, acc: Vec<Expr>, p: usize) -> (r: Result<
    Option<(Vec<Expr>, usize)>,
    CalcError,
>)
    requires
        p <= s@.len(),
    ensures
        parsed_exprs(r) == p_args_rest(s@, exprs_view(acc@), p as int),
        ends_within(r, s@.len()),
    decreases s@.len() - p, 7nat,
{
    let n = s.len();
    let q = skip_ws_exec(s, p);
    if char_is(s, q, ')') {
        Ok(Some((acc, q + 1)))
    } else if char_is(s, q, ',') && q >= p {
        match parse_expr_at(s, q + 1) {
            Err(x) => Err(x),
            Ok(None) => Ok(None),
            Ok(Some((e, r))) => if p < r && r <= s.len() {
                let ghost before = exprs_view(acc@);
                let ghost ev = e@;
                let mut acc = acc;
                acc.push(e);
                assert(exprs_view(acc@) =~= before.push(ev));
                parse_args_rest(s, acc, r)
            } else {
                Ok(None)
            },
        }
    } else {
        Ok(None)
    }
}

fn parse_stmt_at(s: &Vec<char>, p: usize) -> (r: Result<Option<(Stmt, usize)>, CalcError>)
    requires
        p <= s@.len(),
    ensures
        parsed_stmt(r) == p_stmt(s@, p as int),
        ends_within(r, s@.len()),
{
    let n = s.len();
    let w = skip_ws_exec(s, p);
    if let Some(e) = symbol_at_exec(s, w) {
        let q = skip_ws_exec(s, e);
        if char_is(s, q, '=') {
            match parse_expr_at(s, q + 1) {
                Err(x) => {
                    return Err(x);
                },
                Ok(None) => {},
                Ok(Some((v, r))) => {
                    let t = skip_ws_exec(s, r);
                    if char_is(s, t, ';') {
                        return Ok(Some((Stmt::Assignment { name: text_of(s, w, e), value: v }, t + 1)));
                    }
                },
            }
        }
    }
    match parse_expr_at(s, p) {
        Err(x) => Err(x),
        Ok(None) => Ok(None),
        Ok(Some((v, r))) => {
            let t = skip_ws_exec(s, r);
            if char_is(s, t, ';') {
                Ok(Some((Stmt::ExprStmt(v), t + 1)))
            } else {
                Ok(None)
            }
        },
    }
}

/// The characters of a string.
fn chars_of(input: &str) -> (r: Vec<char>)
    ensures
        r@ == input@,
{
    let n = input.unicode_len();
    let mut v: Vec<char> = Vec::new();
    let mut i: usize = 0;
    while i < n
        invariant
            i <= n,
            n == input@.len(),
            v@ == input@.subrange(0, i as int),
        decreases n - i,
    {
        v.push(input.get_char(i));
        i = i + 1;
        assert(v@ =~= input@.subrange(0, i as int));
    }
    assert(v@ =~= input@);
    v
}

/// A whole input holding one statement, with whitespace around it.
pub open spec fn parse_stmt_spec(s: Seq<char>) -> Result<StmtV, CalcErrorV> {
    match p_stmt(s, 0) {
        Err(x) => Err(x),
        Ok(None) => Err(CalcErrorV::ParseError),
        Ok(Some((st, q))) => if skip_ws(s, q) == s.len() {
            Ok(st)
        } else {
            Err(CalcErrorV::ParseError)
        },
    }
}

/// A whole input holding one expression, with whitespace around it.
pub open spec fn parse_expr_spec(s: Seq<char>) -> Result<ExprV, CalcErrorV> {
    match p_expr(s, 0) {
        Err(x) => Err(x),
        Ok(None) => Err(CalcErrorV::ParseError),
        Ok(Some((e, q))) => if skip_ws(s, q) == s.len() {
            Ok(e)
        } else {
            Err(CalcErrorV::ParseError)
        },
    }
}

/// The statements from `p` to the end of the input, in order.
pub open spec fn p_stmt_list(s: Seq<char>, p: int) -> Result<Seq<StmtV>, CalcErrorV>
    decreases s.len() - p,
{
    let q = skip_ws(s, p);
    if q < 0 || q >= s.len() {
        Ok(Seq::empty())
    } else {
        match p_stmt(s, q) {
            Err(x) => Err(x),
            Ok(None) => Err(CalcErrorV::ParseError),
            Ok(Some((st, r))) => if p < r <= s.len() {
                match p_stmt_list(s, r) {
                    Ok(v) => Ok(seq![st] + v),
                    Err(x) => Err(x),
                }
            } else {
                Err(CalcErrorV::ParseError)
            },
        }
    }
}

pub open spec fn stmts_view(v: Seq<Stmt>) -> Seq<StmtV> {
    Seq::new(v.len(), |i: int| v[i]@)
}

/// Parses an input that holds exactly one statement.
pub fn parse_stmt(input: &str) -> (r: Result<Stmt, CalcError>)
    ensures
        result_view(r) == parse_stmt_spec(input@),
{
    let s = chars_of(input);
    match parse_stmt_at(&s, 0) {
        Err(x) => Err(x),
        Ok(None) => Err(CalcError::ParseError),
        Ok(Some((st, q))) => if skip_ws_exec(&s, q) == s.len() {
            Ok(st)
        } else {
            Err(CalcError::ParseError)
        },
    }
}

/// Parses an input that holds exactly one expression.
pub fn parse_expr(input: &str) -> (r: Result<Expr, CalcError>)
    ensures
        result_view(r) == parse_expr_spec(input@),
{
    let s = chars_of(input);
    match parse_expr_at(&s, 0) {
        Err(x) => Err(x),
        Ok(None) => Err(CalcError::ParseError),
        Ok(Some((e, q))) => if skip_ws_exec(&s, q) == s.len() {
            Ok(e)
        } else {
            Err(CalcError::ParseError)
        },
    }
}

/// Parses an input that holds a sequence of `;`-terminated statements.
pub fn parse_stmt_list(input: &str) -> (r: Result<Vec<Stmt>, CalcError>)
    ensures
        match p_stmt_list(input@, 0) {
            Ok(v) => r matches Ok(x) && stmts_view(x@) == v,
            Err(e) => r matches Err(x) && x@ == e,
        },
{
    let s = chars_of(input);
    let n = s.len();
    let mut out: Vec<Stmt> = Vec::new();
    let mut p: usize = 0;
    assert(stmts_view(out@) =~= Seq::empty());
    while p < n
        invariant
            p <= n,
            n == s@.len(),
            s@ == input@,
            p_stmt_list(s@, 0) == match p_stmt_list(s@, p as int) {
                Ok(v) => Ok(stmts_view(out@) + v),
                Err(x) => Err(x),
            },
        decreases n - p,
    {
        let q = skip_ws_exec(&s, p);
        if q >= n {
            assert(p_stmt_list(s@, q as int) == Ok::<Seq<StmtV>, CalcErrorV>(Seq::empty()));
            p = q;
            continue;
        }
        match parse_stmt_at(&s, q) {
            Err(x) => {
                return Err(x);
            },
            Ok(None) => {
                return Err(CalcError::ParseError);
            },
            Ok(Some((st, r))) => {
                if p < r && r <= n {
                    let ghost before = stmts_view(out@);
                    let ghost sv = st@;
                    out.push(st);
                    assert(stmts_view(out@) =~= before.push(sv));
                    proof {
                        match p_stmt_list(s@, r as int) {
                            Ok(v) => {
                                assert(before + (seq![sv] + v) =~= before.push(sv) + v);
                            },
                            Err(_) => {},
                        }
                    }
                    p = r;
                } else {
                    return Err(CalcError::ParseError);
                }
            },
        }
    }
    assert(stmts_view(out@) + Seq::empty() =~= stmts_view(out@));
    Ok(out)
}

} // verus!
