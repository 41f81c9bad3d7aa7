//! A builder for supervised tasks whose type records which parts have been given: the task
//! function first, then its context, then its cancellation function. Only a builder with all
//! three can be taken apart to spawn the task.

use vstd::prelude::*;

verus! {

/// Whether a builder state means the part is present.
pub trait Presence {
    spec fn present() -> bool;
}

/// No task function yet.
pub struct NoFunct;

/// The task function is given.
pub struct HasFunct;

/// No cancellation function yet.
pub struct NoCancelFunct;

/// The cancellation function is given.
pub struct HasCancelFunct;

/// No context yet.
pub struct NoCtx;

/// The context is given.
pub struct HasCtx;

impl Presence for NoFunct {
    open spec fn present() -> bool {
        false
    }
}

impl Presence for HasFunct {
    open spec fn present() -> bool {
        true
    }
}

impl Presence for NoCancelFunct {
    open spec fn present() -> bool {
        false
    }
}

impl Presence for HasCancelFunct {
    open spec fn present() -> bool {
        true
    }
}

impl Presence for NoCtx {
    open spec fn present() -> bool {
        false
    }
}

impl Presence for HasCtx {
    open spec fn present() -> bool {
        true
    }
}

/// A task in the making: its name, and the task function `F`, cancellation function `C` and
/// context `X` given so far.
pub struct TaskBuilder<F, C, X, FunctState: Presence, CancelState: Presence, CtxState: Presence> {
    name: String,
    funct: Option<F>,
    cancel_funct: Option<C>,
    ctx: Option<X>,
    _funct_state: FunctState,
    _cancel_state: CancelState,
    _ctx_state: CtxState,
}

impl<F, C, X, FS: Presence, CS: Presence, XS: Presence> TaskBuilder<F, C, X, FS, CS, XS> {
    /// Each part is present exactly when the builder's type says so.
    #[verifier::type_invariant]
    closed spec fn parts_match_states(&self) -> bool {
        &&& self.funct is Some <==> FS::present()
        &&& self.cancel_funct is Some <==> CS::present()
        &&& self.ctx is Some <==> XS::present()
    }

    pub closed spec fn spec_name(&self) -> Seq<char> {
        self.name@
    }

    pub closed spec fn spec_funct(&self) -> Option<F> {
        self.funct
    }

    pub closed spec fn spec_cancel_funct(&self) -> Option<C> {
        self.cancel_funct
    }

    pub closed spec fn spec_ctx(&self) -> Option<X> {
        self.ctx
    }

    /// Whether the task function is given.
    pub fn has_funct(&self) -> (b: bool)
        ensures
            b == self.spec_funct() is Some,
            b == FS::present(),
    {
        proof {
            use_type_invariant(self);
        }
        self.funct.is_some()
    }

    /// Whether the cancellation function is given.
    pub fn has_cancel_funct(&self) -> (b: bool)
        ensures
            b == self.spec_cancel_funct() is Some,
            b == CS::present(),
    {
        proof {
            use_type_invariant(self);
        }
        self.cancel_funct.is_some()
    }

    /// Whether the context is given.
    pub fn has_ctx(&self) -> (b: bool)
        ensures
            b == self.spec_ctx() is Some,
            b == XS::present(),
    {
        proof {
            use_type_invariant(self);
        }
        self.ctx.is_some()
    }

    pub fn name(&self) -> (n: &str)
        ensures
            n@ == self.spec_name(),
    {
        self.name.as_str()
    }
}

impl TaskBuilder<(), (), (), NoFunct, NoCancelFunct, NoCtx> {
    /// A builder for a task called `name`, with nothing else given.
    pub fn new(name: &str) -> (b: Self)
        ensures
            b.spec_name() == name@,
            b.spec_funct() is None,
            b.spec_cancel_funct() is None,
            b.spec_ctx() is None,
    {
        TaskBuilder {
            name: String::from_str(name),
            funct: None,
            cancel_funct: None,
            ctx: None,
            _funct_state: NoFunct,
            _cancel_state: NoCancelFunct,
            _ctx_state: NoCtx,
        }
    }
}

impl<C, X> TaskBuilder<(), C, X, NoFunct, NoCancelFunct, NoCtx> {
    /// Gives the task function.
    pub fn with_funct<NF>(self, funct: NF) -> (b: TaskBuilder<
        NF,
        C,
        X,
        HasFunct,
        NoCancelFunct,
        NoCtx,
    >)
        ensures
            b.spec_name() == self.spec_name(),
            b.spec_funct() == Some(funct),
            b.spec_cancel_funct() == self.spec_cancel_funct(),
            b.spec_ctx() == self.spec_ctx(),
    {
        proof {
            use_type_invariant(&self);
        }
        TaskBuilder {
            name: self.name,
            funct: Some(funct),
            cancel_funct: self.cancel_funct,
            ctx: self.ctx,
            _funct_state: HasFunct,
            _cancel_state: self._cancel_state,
            _ctx_state: self._ctx_state,
        }
    }
}

impl<F, C> TaskBuilder<F, C, (), HasFunct, NoCancelFunct, NoCtx> {
    /// Gives the context the task function is called with.
    pub fn with_ctx<NX>(self, ctx: NX) -> (b: TaskBuilder<F, C, NX, HasFunct, NoCancelFunct, HasCtx>)
        ensures
            b.spec_name() == self.spec_name(),
            b.spec_funct() == self.spec_funct(),
            b.spec_cancel_funct() == self.spec_cancel_funct(),
            b.spec_ctx() == Some(ctx),
    {
        proof {
            use_type_invariant(&self);
        }
        TaskBuilder {
            name: self.name,
            funct: self.funct,
            cancel_funct: self.cancel_funct,
            ctx: Some(ctx),
            _funct_state: self._funct_state,
            _cancel_state: self._cancel_state,
            _ctx_state: HasCtx,
        }
    }
}

impl<F, X> TaskBuilder<F, (), X, HasFunct, NoCancelFunct, HasCtx> {
    /// Gives the function run when the task is cancelled.
    pub fn with_cancel_funct<NC>(self, cancel_funct: NC) -> (b: TaskBuilder<
        F,
        NC,
        X,
        HasFunct,
        HasCancelFunct,
        HasCtx,
    >)
        ensures
            b.spec_name() == self.spec_name(),
            b.spec_funct() == self.spec_funct(),
            b.spec_cancel_funct() == Some(cancel_funct),
            b.spec_ctx() == self.spec_ctx(),
    {
        proof {
            use_type_invariant(&self);
        }
        TaskBuilder {
            name: self.name,
            funct: self.funct,
            cancel_funct: Some(cancel_funct),
            ctx: self.ctx,
            _funct_state: self._funct_state,
            _cancel_state: HasCancelFunct,
            _ctx_state: self._ctx_state,
        }
    }
}

impl<F, C, X> TaskBuilder<F, C, X, HasFunct, HasCancelFunct, HasCtx> {
    /// The name, task function, cancellation function and context of a complete builder.
    pub fn into_parts(self) -> (r: (String, F, C, X))
        ensures
            r.0@ == self.spec_name(),
            self.spec_funct() == Some(r.1),
            self.spec_cancel_funct() == Some(r.2),
            self.spec_ctx() == Some(r.3),
    {
        proof {
            use_type_invariant(&self);
        }
        let TaskBuilder { name, funct, cancel_funct, ctx, .. } = self;
        (name, funct.unwrap(), cancel_funct.unwrap(), ctx.unwrap())
    }
}

} // verus!
