//! Scope stacks of value and function bindings, and callables.

use crate::ast::{copy_names, expr_view, names_view, Expr, ExprV};
use crate::number::{Number, NumberView};
use crate::{result_view, CalcError, CalcErrorV};
use vstd::prelude::*;

verus! {

broadcast use vstd::std_specs::vec::group_vec_axioms;

/// A function supplied by the runtime, taking one argument.
#[derive(Debug, Clone, Copy, PartialEq, Eq, Structural)]
pub enum Builtin {
    Sqrt,
    Sin,
    Cos,
    Tan,
}

/// A user-defined function: parameter names, body, and the context in effect
/// where it was defined.
#[derive(Debug)]
pub struct CalcFunc {
    pub bindings: Vec<String>,
    pub body: Expr,
    pub captured: Context,
}

/// Anything that can be called: a builtin or a user-defined function.
#[derive(Debug)]
pub enum Callable {
    Builtin(Builtin),
    User(CalcFunc),
}

/// One layer of a scope stack.
#[derive(Debug)]
pub struct Frame {
    pub values: Vec<(String, Number)>,
    pub functions: Vec<(String, Callable)>,
}

/// A scope stack; the last frame is the innermost. Every constructor makes
/// at least one frame.
#[derive(Debug)]
pub struct Context {
    frames: Vec<Frame>,
}

/// What a `Frame` holds.
pub struct FrameV {
    pub values: Seq<(Seq<char>, NumberView)>,
    pub functions: Seq<(Seq<char>, CallableV)>,
}

/// What a `Callable` holds.
pub enum CallableV {
    Builtin(Builtin),
    User { params: Seq<Seq<char>>, body: ExprV, captured: Seq<FrameV> },
}

pub open spec fn empty_frame() -> FrameV {
    FrameV { values: Seq::empty(), functions: Seq::empty() }
}

pub closed spec fn context_view(c: Context) -> Seq<FrameV>
    decreases c,
{
    Seq::new(
        c.frames@.len(),
        |i: int|
            if 0 <= i < c.frames@.len() {
                frame_view(c.frames@[i])
            } else {
                empty_frame()
            },
    )
}

pub open spec fn frame_view(f: Frame) -> FrameV
    decreases f,
{
    FrameV {
        values: Seq::new(f.values@.len(), |i: int| (f.values@[i].0@, f.values@[i].1@)),
        functions: Seq::new(
            f.functions@.len(),
            |i: int|
                if 0 <= i < f.functions@.len() {
                    (f.functions@[i].0@, callable_view(f.functions@[i].1))
                } else {
                    (Seq::empty(), CallableV::Builtin(Builtin::Sqrt))
                },
        ),
    }
}

pub open spec fn callable_view(c: Callable) -> CallableV
    decreases c,
{
    match c {
        Callable::Builtin(b) => CallableV::Builtin(b),
        Callable::User(f) => CallableV::User {
            params: names_view(f.bindings@),
            body: expr_view(f.body),
            captured: context_view(f.captured),
        },
    }
}

impl View for Context {
    type V = Seq<FrameV>;

    open spec fn view(&self) -> Seq<FrameV> {
        context_view(*self)
    }
}

impl View for Callable {
    type V = CallableV;

    open spec fn view(&self) -> CallableV {
        callable_view(*self)
    }
}

/// The most recent binding of `name` in `b`.
pub open spec fn find_binding<T>(b: Seq<(Seq<char>, T)>, name: Seq<char>) -> Option<T>
    decreases b.len(),
{
    if b.len() == 0 {
        None
    } else if b.last().0 == name {
        Some(b.last().1)
    } else {
        find_binding(b.drop_last(), name)
    }
}

/// The value bound to `name` in the innermost frame that binds it.
pub open spec fn lookup_value_in(c: Seq<FrameV>, name: Seq<char>) -> Option<NumberView>
    decreases c.len(),
{
    if c.len() == 0 {
        None
    } else {
        match find_binding(c.last().values, name) {
            Some(v) => Some(v),
            None => lookup_value_in(c.drop_last(), name),
        }
    }
}

/// The function bound to `name` in the innermost frame that binds it.
pub open spec fn lookup_user_fn_in(c: Seq<FrameV>, name: Seq<char>) -> Option<CallableV>
    decreases c.len(),
{
    if c.len() == 0 {
        None
    } else {
        match find_binding(c.last().functions, name) {
            Some(f) => Some(f),
            None => lookup_user_fn_in(c.drop_last(), name),
        }
    }
}

/// The builtin function of that name: `sqrt`, `sin`, `cos` or `tan`.
pub open spec fn builtin_named(name: Seq<char>) -> Option<Builtin> {
    if name == "sqrt"@ {
        Some(Builtin::Sqrt)
    } else if name == "sin"@ {
        Some(Builtin::Sin)
    } else if name == "cos"@ {
        Some(Builtin::Cos)
    } else if name == "tan"@ {
        Some(Builtin::Tan)
    } else {
        None
    }
}

/// Function lookup: user bindings first, then the builtins.
pub open spec fn lookup_fn_in(c: Seq<FrameV>, name: Seq<char>) -> Option<CallableV> {
    match lookup_user_fn_in(c, name) {
        Some(f) => Some(f),
        None => match builtin_named(name) {
            Some(b) => Some(CallableV::Builtin(b)),
            None => None,
        },
    }
}

/// The context after binding `name` to `v` in the innermost frame, or the
/// error when that frame already binds it.
pub open spec fn bind_value_in(c: Seq<FrameV>, name: Seq<char>, v: NumberView) -> Result<
    Seq<FrameV>,
    CalcErrorV,
> {
    let top = c.last();
    if find_binding(top.values, name) is Some {
        Err(CalcErrorV::NameAlreadyBound(name))
    } else {
        Ok(c.update(c.len() - 1, FrameV { values: top.values.push((name, v)), ..top }))
    }
}

/// The context after binding `name` to the function `f` in the innermost
/// frame, or the error when `name` is a builtin or that frame binds it.
pub open spec fn bind_fn_in(c: Seq<FrameV>, name: Seq<char>, f: CallableV) -> Result<
    Seq<FrameV>,
    CalcErrorV,
> {
    let top = c.last();
    if builtin_named(name) is Some || find_binding(top.functions, name) is Some {
        Err(CalcErrorV::NameAlreadyBound(name))
    } else {
        Ok(c.update(c.len() - 1, FrameV { functions: top.functions.push((name, f)), ..top }))
    }
}

/// Number of parameters of a callable.
pub open spec fn arity_of(f: CallableV) -> nat {
    match f {
        CallableV::Builtin(_) => 1,
        CallableV::User { params, .. } => params.len(),
    }
}

/// The frame binding each parameter to its argument.
pub open spec fn params_frame(params: Seq<Seq<char>>, args: Seq<NumberView>) -> FrameV {
    FrameV {
        values: Seq::new(params.len(), |i: int| (params[i], args[i])),
        functions: Seq::empty(),
    }
}

/// Whether two strings hold the same characters.
pub fn same_name(a: &str, b: &str) -> (r: bool)
    ensures
        r == (a@ == b@),
{
    let n = a.unicode_len();
    if n != b.unicode_len() {
        return false;
    }
    let mut i: usize = 0;
    while i < n
        invariant
            i <= n,
            n == a@.len(),
            n == b@.len(),
            forall|k: int| 0 <= k < i ==> a@[k] == b@[k],
        decreases n - i,
    {
        if a.get_char(i) != b.get_char(i) {
            return false;
        }
        i = i + 1;
    }
    assert(a@ =~= b@);
    true
}

/// The builtin function of that name, if any.
pub fn builtin_for(name: &str) -> (r: Option<Builtin>)
    ensures
        r == builtin_named(name@),
{
    if same_name(name, "sqrt") {
        Some(Builtin::Sqrt)
    } else if same_name(name, "sin") {
        Some(Builtin::Sin)
    } else if same_name(name, "cos") {
        Some(Builtin::Cos)
    } else if same_name(name, "tan") {
        Some(Builtin::Tan)
    } else {
        None
    }
}

/// The views of a list of numbers.
pub open spec fn numbers_view(v: Seq<Number>) -> Seq<NumberView> {
    Seq::new(v.len(), |i: int| v[i]@)
}

/// The views of a list of name and number pairs.
pub open spec fn pairs_view(v: Seq<(String, Number)>) -> Seq<(Seq<char>, NumberView)> {
    Seq::new(v.len(), |i: int| (v[i].0@, v[i].1@))
}

proof fn lemma_find_binding<T>(b: Seq<(Seq<char>, T)>, name: Seq<char>, j: int)
    requires
        -1 <= j < b.len(),
        j >= 0 ==> b[j].0 == name,
        forall|k: int| j < k < b.len() ==> b[k].0 != name,
    ensures
        find_binding(b, name) == (if j >= 0 {
            Some(b[j].1)
        } else {
            None::<T>
        }),
    decreases b.len(),
{
    if b.len() > 0 && b.len() - 1 != j {
        lemma_find_binding(b.drop_last(), name, j);
    }
}

/// Index of the most recent binding of `name`.
fn find_name<T>(b: &Vec<(String, T)>, name: &str) -> (r: Option<usize>)
    ensures
        r matches Some(j) ==> j < b@.len() && b@[j as int].0@ == name@ && forall|k: int|
            j < k < b@.len() ==> b@[k].0@ != name@,
        r is None ==> forall|k: int| 0 <= k < b@.len() ==> b@[k].0@ != name@,
{
    let mut i = b.len();
    while i > 0
        invariant
            i <= b@.len(),
            forall|k: int| i <= k < b@.len() ==> b@[k].0@ != name@,
        decreases i,
    {
        if same_name(b[i - 1].0.as_str(), name) {
            return Some(i - 1);
        }
        i = i - 1;
    }
    None
}

impl Frame {
    /// A frame binding the given values and no functions.
    pub fn new(values: Vec<(String, Number)>) -> (r: Frame)
        ensures
            frame_view(r) == (FrameV { values: pairs_view(values@), functions: Seq::empty() }),
    {
        let r = Frame { values, functions: Vec::new() };
        assert(frame_view(r).functions =~= Seq::empty());
        assert(frame_view(r).values =~= pairs_view(values@));
        r
    }

    /// A copy of the frame.
    pub fn copy(&self) -> (r: Frame)
        ensures
            frame_view(r) == frame_view(*self),
        decreases self,
    {
        let mut values: Vec<(String, Number)> = Vec::new();
        let mut i: usize = 0;
        while i < self.values.len()
            invariant
                i <= self.values@.len(),
                values@.len() == i,
                forall|k: int|
                    0 <= k < i ==> values@[k].0@ == self.values@[k].0@ && values@[k].1@
                        == self.values@[k].1@,
            decreases self.values@.len() - i,
        {
            values.push((self.values[i].0.clone(), self.values[i].1.copy()));
            i = i + 1;
        }
        let mut functions: Vec<(String, Callable)> = Vec::new();
        let mut i: usize = 0;
        while i < self.functions.len()
            invariant
                i <= self.functions@.len(),
                functions@.len() == i,
                forall|k: int|
                    0 <= k < i ==> functions@[k].0@ == self.functions@[k].0@ && callable_view(
                        functions@[k].1,
                    ) == callable_view(self.functions@[k].1),
            decreases self.functions@.len() - i,
        {
            proof {
                let ghost v = self.functions;
                assert(decreases_to!(*self => v));
                assert(decreases_to!(v => v@));
                assert(decreases_to!(v@ => v@[i as int]));
                assert(decreases_to!(v@[i as int] => v@[i as int].1));
            }
            functions.push((self.functions[i].0.clone(), self.functions[i].1.copy()));
            i = i + 1;
        }
        let r = Frame { values, functions };
        proof {
            let a = frame_view(r);
            let b = frame_view(*self);
            assert(a.values =~= b.values);
            assert forall|k: int| 0 <= k < a.functions.len() implies a.functions[k]
                == b.functions[k] by {}
            assert(a.functions =~= b.functions);
        }
        r
    }
}

impl Callable {
    /// Number of parameters.
    pub fn arity(&self) -> (r: usize)
        ensures
            r == arity_of(self@),
    {
        match self {
            Callable::Builtin(_) => 1,
            Callable::User(f) => {
                let n = f.bindings.len();
                assert(names_view(f.bindings@).len() == n);
                n
            },
        }
    }

    /// A copy of the callable.
    pub fn copy(&self) -> (r: Callable)
        ensures
            r@ == self@,
        decreases self,
    {
        match self {
            Callable::Builtin(b) => Callable::Builtin(*b),
            Callable::User(f) => Callable::User(f.copy()),
        }
    }
}

impl CalcFunc {
    /// A function of the given parameters and body, defined where only the
    /// builtins are bound.
    pub fn new(bindings: Vec<String>, body: Expr) -> (r: CalcFunc)
        ensures
            callable_view(Callable::User(r)) == (CallableV::User {
                params: names_view(bindings@),
                body: body@,
                captured: seq![empty_frame()],
            }),
    {
        CalcFunc { bindings, body, captured: Context::new() }
    }

    /// A copy of the function.
    pub fn copy(&self) -> (r: CalcFunc)
        ensures
            callable_view(Callable::User(r)) == callable_view(Callable::User(*self)),
        decreases self,
    {
        CalcFunc {
            bindings: copy_names(&self.bindings),
            body: self.body.copy(),
            captured: self.captured.copy(),
        }
    }

    /// The body, and the defining context extended by a frame that binds each
    /// parameter to its argument.
    pub fn enter(self, args: Vec<Number>) -> (r: (Expr, Context))
        requires
            args@.len() == self.bindings@.len(),
        ensures
            callable_view(Callable::User(self)) matches CallableV::User { params, body, captured }
                && r.0@ == body && r.1@ == captured.push(
                params_frame(params, numbers_view(args@)),
            ),
    {
        let CalcFunc { bindings, body, captured } = self;
        let mut values: Vec<(String, Number)> = Vec::new();
        let mut args = args;
        let ghost all = args@;
        let mut i: usize = 0;
        while i < bindings.len()
            invariant
                i <= bindings@.len(),
                all.len() == bindings@.len(),
                values@.len() == i,
                args@.len() + i == all.len(),
                forall|k: int| 0 <= k < args@.len() ==> args@[k] == all[k + i],
                forall|k: int| 0 <= k < i ==> #[trigger] values@[k].0@ == bindings@[k]@,
                forall|k: int| 0 <= k < i ==> #[trigger] values@[k].1@ == all[k]@,
            decreases bindings@.len() - i,
        {
            let ghost before = args@;
            let a = args.remove(0);
            assert(a == all[i as int]);
            let nm = bindings[i].clone();
            values.push((nm, a));
            i = i + 1;
            assert forall|k: int| 0 <= k < args@.len() implies args@[k] == all[k + i] by {
                assert(args@[k] == before[k + 1]);
            }
        }
        let mut scope = captured;
        scope.add_scope(values);
        proof {
            assert(pairs_view(values@) =~= params_frame(
                names_view(bindings@),
                numbers_view(all),
            ).values);
        }
        (body, scope)
    }
}

impl Context {
    /// A context whose only frame is empty.
    pub fn new() -> (r: Context)
        ensures
            r@ == seq![empty_frame()],
    {
        let mut frames: Vec<Frame> = Vec::new();
        frames.push(Frame::new(Vec::new()));
        let r = Context { frames };
        assert(pairs_view(Seq::<(String, Number)>::empty()) =~= Seq::empty());
        assert(context_view(r) =~= seq![empty_frame()]);
        r
    }

    /// Pushes a frame binding the given values.
    pub fn add_scope(&mut self, values: Vec<(String, Number)>)
        ensures
            final(self)@ == old(self)@.push(
                FrameV { values: pairs_view(values@), functions: Seq::empty() },
            ),
    {
        let f = Frame::new(values);
        self.frames.push(f);
        assert(context_view(*self) =~= context_view(*old(self)).push(
            FrameV { values: pairs_view(values@), functions: Seq::empty() },
        ));
    }

    /// A copy of the context.
    pub fn copy(&self) -> (r: Context)
        ensures
            r@ == self@,
        decreases self,
    {
        let mut frames: Vec<Frame> = Vec::new();
        let mut i: usize = 0;
        while i < self.frames.len()
            invariant
                i <= self.frames@.len(),
                frames@.len() == i,
                forall|k: int| 0 <= k < i ==> frame_view(frames@[k]) == frame_view(self.frames@[k]),
            decreases self.frames@.len() - i,
        {
            proof {
                let ghost v = self.frames;
                assert(decreases_to!(*self => v));
                assert(decreases_to!(v => v@));
                assert(decreases_to!(v@ => v@[i as int]));
            }
            frames.push(self.frames[i].copy());
            i = i + 1;
        }
        let r = Context { frames };
        assert(context_view(r) =~= context_view(*self));
        r
    }

    /// The value bound to `name` in the innermost frame that binds it.
    pub fn lookup_value(&self, name: &str) -> (r: Result<Number, CalcError>)
        ensures
            result_view(r) == match lookup_value_in(self@, name@) {
                Some(v) => Ok(v),
                None => Err(CalcErrorV::NameNotFound(name@)),
            },
    {
        let mut i = self.frames.len();
        assert(self@.subrange(0, i as int) =~= self@);
        while i > 0
            invariant
                i <= self.frames@.len(),
                self@.len() == self.frames@.len(),
                lookup_value_in(self@, name@) == lookup_value_in(self@.subrange(0, i as int), name@),
            decreases i,
        {
            let f = &self.frames[i - 1];
            let ghost c = self@.subrange(0, i as int);
            assert(c.last() == frame_view(*f));
            assert(c.drop_last() =~= self@.subrange(0, i - 1));
            match find_name(&f.values, name) {
                Some(j) => {
                    proof {
                        lemma_find_binding(frame_view(*f).values, name@, j as int);
                    }
                    return Ok(f.values[j].1.copy());
                },
                None => {
                    proof {
                        lemma_find_binding(frame_view(*f).values, name@, -1);
                    }
                },
            }
            i = i - 1;
        }
        Err(CalcError::NameNotFound(name.to_owned()))
    }

    /// The function bound to `name`: the innermost user binding, else a builtin.
    pub fn lookup_fn(&self, name: &str) -> (r: Result<Callable, CalcError>)
        ensures
            result_view(r) == match lookup_fn_in(self@, name@) {
                Some(f) => Ok(f),
                None => Err(CalcErrorV::NameNotFound(name@)),
            },
    {
        let mut i = self.frames.len();
        assert(self@.subrange(0, i as int) =~= self@);
        while i > 0
            invariant
                i <= self.frames@.len(),
                self@.len() == self.frames@.len(),
                lookup_user_fn_in(self@, name@) == lookup_user_fn_in(
                    self@.subrange(0, i as int),
                    name@,
                ),
            decreases i,
        {
            let f = &self.frames[i - 1];
            let ghost c = self@.subrange(0, i as int);
            assert(c.last() == frame_view(*f));
            assert(c.drop_last() =~= self@.subrange(0, i - 1));
            match find_name(&f.functions, name) {
                Some(j) => {
                    proof {
                        lemma_find_binding(frame_view(*f).functions, name@, j as int);
                    }
                    return Ok(f.functions[j].1.copy());
                },
                None => {
                    proof {
                        lemma_find_binding(frame_view(*f).functions, name@, -1);
                    }
                },
            }
            i = i - 1;
        }
        match builtin_for(name) {
            Some(b) => Ok(Callable::Builtin(b)),
            None => Err(CalcError::NameNotFound(name.to_owned())),
        }
    }

    /// Binds `name` to `value` in the innermost frame; fails when that frame
    /// already binds `name`. Returns the bound value.
    pub fn bind_value(&mut self, name: String, value: Number) -> (r: Result<Number, CalcError>)
        requires
            old(self)@.len() > 0,
        ensures
            match bind_value_in(old(self)@, name@, value@) {
                Ok(c) => final(self)@ == c && result_view(r) == Ok::<NumberView, CalcErrorV>(value@),
                Err(e) => final(self)@ == old(self)@ && result_view(r) == Err::<NumberView, CalcErrorV>(e),
            },
    {
        let n = self.frames.len();
        let ghost c = self@;
        assert(c.last() == frame_view(self.frames@[n - 1]));
        match find_name(&self.frames[n - 1].values, name.as_str()) {
            Some(j) => {
                proof {
                    lemma_find_binding(c.last().values, name@, j as int);
                }
                Err(CalcError::NameAlreadyBound(name))
            },
            None => {
                proof {
                    lemma_find_binding(c.last().values, name@, -1);
                }
                let ret = value.copy();
                match self.frames.pop() {
                    Some(mut top) => {
                        let ghost t = frame_view(top);
                        top.values.push((name, value));
                        assert(frame_view(top).values =~= t.values.push((name@, value@)));
                        assert(frame_view(top).functions =~= t.functions);
                        self.frames.push(top);
                        assert(context_view(*self) =~= c.update(
                            c.len() - 1,
                            FrameV { values: c.last().values.push((name@, value@)), ..c.last() },
                        ));
                    },
                    None => {},
                }
                Ok(ret)
            },
        }
    }

    /// Binds `name` to the user function `func` in the innermost frame; fails
    /// when `name` is a builtin or that frame already binds it.
    pub fn bind_fn(&mut self, name: String, func: CalcFunc) -> (r: Result<(), CalcError>)
        requires
            old(self)@.len() > 0,
        ensures
            match bind_fn_in(old(self)@, name@, callable_view(Callable::User(func))) {
                Ok(c) => final(self)@ == c && r is Ok,
                Err(e) => final(self)@ == old(self)@ && r == Err::<(), CalcError>(CalcError::NameAlreadyBound(name)) && e == CalcErrorV::NameAlreadyBound(name@),
            },
    {
        let n = self.frames.len();
        let ghost c = self@;
        let ghost fv = callable_view(Callable::User(func));
        assert(c.last() == frame_view(self.frames@[n - 1]));
        if builtin_for(name.as_str()).is_some() {
            return Err(CalcError::NameAlreadyBound(name));
        }
        match find_name(&self.frames[n - 1].functions, name.as_str()) {
            Some(j) => {
                proof {
                    lemma_find_binding(c.last().functions, name@, j as int);
                }
                Err(CalcError::NameAlreadyBound(name))
            },
            None => {
                proof {
                    lemma_find_binding(c.last().functions, name@, -1);
                }
                match self.frames.pop() {
                    Some(mut top) => {
                        let ghost t = frame_view(top);
                        let ghost nm = name@;
                        top.functions.push((name, Callable::User(func)));
                        assert(frame_view(top).functions =~= t.functions.push((nm, fv)));
                        assert(frame_view(top).values =~= t.values);
                        self.frames.push(top);
                        assert(context_view(*self) =~= c.update(
                            c.len() - 1,
                            FrameV { functions: c.last().functions.push((nm, fv)), ..c.last() },
                        ));
                    },
                    None => {},
                }
                Ok(())
            },
        }
    }
} // impl Context

} // verus!
