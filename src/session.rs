//! Running source text against a context and rendering the outcome, as a
//! host (a shell or a window) does for each input it receives.

use crate::context::{Context, FrameV};
use crate::eval::{eval_stmt, eval_stmt_spec, stmt_result_view, MAX_DEPTH};
use crate::number::{float_to_string, number_text};
use crate::parser::{p_stmt_list, parse_stmt, parse_stmt_list, parse_stmt_spec, stmts_view};
use crate::{message_text, CalcError, CalcErrorV};
use crate::ast::StmtV;
use vstd::prelude::*;

verus! {

/// Text for the outcome of one statement: its value, nothing for a
/// definition, or the error.
pub open spec fn outcome_text(r: Result<(Option<crate::number::NumberView>, Seq<FrameV>), CalcErrorV>) -> Seq<char> {
    match r {
        Ok((Some(v), _)) => number_text(v),
        Ok((None, _)) => Seq::empty(),
        Err(e) => message_text(e),
    }
}

/// Context after one statement: unchanged when it fails.
pub open spec fn outcome_context(
    r: Result<(Option<crate::number::NumberView>, Seq<FrameV>), CalcErrorV>,
    c: Seq<FrameV>,
) -> Seq<FrameV> {
    match r {
        Ok((_, c2)) => c2,
        Err(_) => c,
    }
}

/// Text and context after running one statement of source text.
pub open spec fn statement_text(s: Seq<char>, c: Seq<FrameV>) -> (Seq<char>, Seq<FrameV>) {
    match parse_stmt_spec(s) {
        Err(e) => (message_text(e), c),
        Ok(st) => {
            let r = eval_stmt_spec(st, c, MAX_DEPTH as nat);
            (outcome_text(r), outcome_context(r, c))
        },
    }
}

/// Texts and context after running `stmts[i..]` in order; a failing
/// statement gives its error text and the rest still run.
pub open spec fn statements_texts(stmts: Seq<StmtV>, i: int, c: Seq<FrameV>) -> (
    Seq<Seq<char>>,
    Seq<FrameV>,
)
    decreases stmts.len() - i,
{
    if i < 0 || i >= stmts.len() {
        (Seq::empty(), c)
    } else {
        let r = eval_stmt_spec(stmts[i], c, MAX_DEPTH as nat);
        let rest = statements_texts(stmts, i + 1, outcome_context(r, c));
        (seq![outcome_text(r)] + rest.0, rest.1)
    }
}

/// Texts and context after running a `;`-separated list of statements; a
/// list that does not parse gives one error text.
pub open spec fn list_text(s: Seq<char>, c: Seq<FrameV>) -> (Seq<Seq<char>>, Seq<FrameV>) {
    match p_stmt_list(s, 0) {
        Err(e) => (seq![message_text(e)], c),
        Ok(stmts) => statements_texts(stmts, 0, c),
    }
}

/// Text for the outcome of a statement run against `ctx`.
fn outcome(r: Result<Option<crate::number::Number>, CalcError>) -> (t: String)
    ensures
        t@ == match stmt_result_view(r) {
            Ok(Some(v)) => number_text(v),
            Ok(None) => Seq::empty(),
            Err(e) => message_text(e),
        },
{
    match r {
        Ok(Some(v)) => float_to_string(&v),
        Ok(None) => String::new(),
        Err(e) => e.message(),
    }
}

/// Parses and runs one statement against `ctx`, and renders the outcome.
pub fn eval_statement_text(input: &str, ctx: &mut Context) -> (r: String)
    requires
        old(ctx)@.len() > 0,
    ensures
        r@ == statement_text(input@, old(ctx)@).0,
        final(ctx)@ == statement_text(input@, old(ctx)@).1,
{
    match parse_stmt(input) {
        Err(e) => e.message(),
        Ok(st) => {
            let r = eval_stmt(&st, ctx);
            outcome(r)
        },
    }
}

/// Parses a list of statements and runs them in order against `ctx`, one
/// text per statement.
pub fn eval_statement_list_text(input: &str, ctx: &mut Context) -> (r: Vec<String>)
    requires
        old(ctx)@.len() > 0,
    ensures
        Seq::new(r@.len(), |i: int| r@[i]@) == list_text(input@, old(ctx)@).0,
        final(ctx)@ == list_text(input@, old(ctx)@).1,
{
    let mut out: Vec<String> = Vec::new();
    match parse_stmt_list(input) {
        Err(e) => {
            out.push(e.message());
            assert(Seq::new(out@.len(), |i: int| out@[i]@) =~= seq![message_text(e@)]);
            out
        },
        Ok(stmts) => {
            let ghost sv = stmts_view(stmts@);
            let ghost c0 = ctx@;
            let mut i: usize = 0;
            assert(Seq::new(out@.len(), |k: int| out@[k]@) =~= Seq::<Seq<char>>::empty());
            while i < stmts.len()
                invariant
                    i <= stmts@.len(),
                    sv == stmts_view(stmts@),
                    ctx@.len() > 0,
                    list_text(input@, c0) == ({
                        let rest = statements_texts(sv, i as int, ctx@);
                        (Seq::new(out@.len(), |k: int| out@[k]@) + rest.0, rest.1)
                    }),
                decreases stmts@.len() - i,
            {
                let ghost before = Seq::new(out@.len(), |k: int| out@[k]@);
                let ghost c = ctx@;
                let r = eval_stmt(&stmts[i], ctx);
                let t = outcome(r);
                let ghost tv = t@;
                out.push(t);
                proof {
                    let rr = eval_stmt_spec(sv[i as int], c, MAX_DEPTH as nat);
                    assert(tv == outcome_text(rr));
                    let rest = statements_texts(sv, i + 1, ctx@);
                    assert(Seq::new(out@.len(), |k: int| out@[k]@) =~= before.push(tv));
                    assert(before + (seq![tv] + rest.0) =~= before.push(tv) + rest.0);
                }
                i = i + 1;
            }
            assert(Seq::new(out@.len(), |k: int| out@[k]@) + Seq::empty() =~= Seq::new(
                out@.len(),
                |k: int| out@[k]@,
            ));
            out
        },
    }
}

} // verus!
