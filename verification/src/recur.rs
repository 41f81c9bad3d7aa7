//! An event loop's registry of handlers, grouped by event type in the order they were added.

use crate::hermes::same_type;
use std::any::TypeId;
use vstd::prelude::*;

verus! {

/// An event: it knows its own type.
pub trait Event: Send + Sync + 'static {
    fn event_type(&self) -> TypeId;
}

/// The handlers of one event type, in the order they were added.
pub struct HandlerGroup<B> {
    pub event_type: TypeId,
    pub handlers: Vec<B>,
}

/// The registry as a mathematical value: for each event type with handlers, its handlers.
pub open spec fn groups_view<B>(groups: Seq<HandlerGroup<B>>) -> Seq<(TypeId, Seq<B>)> {
    groups.map_values(|g: HandlerGroup<B>| (g.event_type, g.handlers@))
}

/// No event type has two groups.
pub open spec fn types_distinct<B>(groups: Seq<(TypeId, Seq<B>)>) -> bool {
    forall|i: int, j: int| 0 <= i < j < groups.len() ==> groups[i].0 != groups[j].0
}

/// The handlers registered for `t`, in order (none if `t` has no group).
pub open spec fn handlers_of<B>(groups: Seq<(TypeId, Seq<B>)>, t: TypeId) -> Seq<B> {
    if exists|i: int| 0 <= i < groups.len() && groups[i].0 == t {
        groups[choose|i: int| 0 <= i < groups.len() && groups[i].0 == t].1
    } else {
        Seq::empty()
    }
}

/// The registry after adding `handler` for `t`: appended to `t`'s group, or in a new group at
/// the end.
pub open spec fn with_handler<B>(groups: Seq<(TypeId, Seq<B>)>, t: TypeId, handler: B) -> Seq<
    (TypeId, Seq<B>),
> {
    if exists|i: int| 0 <= i < groups.len() && groups[i].0 == t {
        let i = choose|i: int| 0 <= i < groups.len() && groups[i].0 == t;
        groups.update(i, (t, groups[i].1.push(handler)))
    } else {
        groups.push((t, seq![handler]))
    }
}

/// Handlers of type `B`, grouped by the event type they handle.
pub struct EventLoop<B> {
    handlers: Vec<HandlerGroup<B>>,
}

impl<B> View for EventLoop<B> {
    type V = Seq<(TypeId, Seq<B>)>;

    closed spec fn view(&self) -> Seq<(TypeId, Seq<B>)> {
        groups_view(self.handlers@)
    }
}

impl<B> EventLoop<B> {
    /// No event type has two groups.
    #[verifier::type_invariant]
    closed spec fn inv(&self) -> bool {
        types_distinct(self@)
    }

    /// No handlers.
    pub fn new() -> (e: Self)
        ensures
            e@ == Seq::<(TypeId, Seq<B>)>::empty(),
    {
        let e = EventLoop { handlers: Vec::new() };
        proof {
            assert(e@ =~= Seq::<(TypeId, Seq<B>)>::empty());
        }
        e
    }

    fn find_group(&self, t: &TypeId) -> (r: Option<usize>)
        ensures
            match r {
                Some(i) => i < self@.len() && self@[i as int].0 == *t,
                None => forall|j: int| 0 <= j < self@.len() ==> self@[j].0 != *t,
            },
    {
        let mut i: usize = 0;
        while i < self.handlers.len()
            invariant
                i <= self.handlers@.len(),
                forall|j: int| 0 <= j < i ==> self@[j].0 != *t,
            decreases self.handlers@.len() - i,
        {
            if same_type(&self.handlers[i].event_type, t) {
                return Some(i);
            }
            i = i + 1;
        }
        None
    }

    /// The handlers registered for `event_type`, in the order they were added.
    pub fn handlers_for(&self, event_type: &TypeId) -> (r: &[B])
        ensures
            r@ == handlers_of(self@, *event_type),
    {
        proof {
            use_type_invariant(self);
        }
        match self.find_group(event_type) {
            Some(i) => {
                proof {
                    let g = self@;
                    let c = choose|c: int| 0 <= c < g.len() && g[c].0 == *event_type;
                    if c != i {
                        if c < i {
                            assert(g[c].0 != g[i as int].0);
                        } else {
                            assert(g[i as int].0 != g[c].0);
                        }
                    }
                }
                self.handlers[i].handlers.as_slice()
            },
            None => {
                let empty: &[B] = &[];
                proof {
                    assert(empty@ =~= handlers_of(self@, *event_type));
                }
                empty
            },
        }
    }

    /// Adds `handler` for events of type `event_type`, after those already there.
    pub fn add_handler(&mut self, event_type: TypeId, handler: B) -> (r: &mut Self)
        ensures
            types_distinct(r@),
            r@ == with_handler(old(self)@, event_type, handler),
            final(self)@ == final(r)@,
    {
        proof {
            use_type_invariant(&*self);
        }
        let ghost g0 = self@;
        let idx = self.find_group(&event_type);
        let mut handlers: Vec<HandlerGroup<B>> = Vec::new();
        proof {
            assert(groups_view(handlers@) =~= Seq::<(TypeId, Seq<B>)>::empty());
        }
        std::mem::swap(&mut handlers, &mut self.handlers);
        if idx.is_some() {
            let i = idx.unwrap();
            proof {
                assert(g0[i as int].0 == event_type);
                let c = choose|c: int| 0 <= c < g0.len() && g0[c].0 == event_type;
                if c != i {
                    if c < i {
                        assert(g0[c].0 != g0[i as int].0);
                    } else {
                        assert(g0[i as int].0 != g0[c].0);
                    }
                }
            }
            let mut group = handlers.remove(i);
            group.handlers.push(handler);
            handlers.insert(i, group);
            proof {
                assert(groups_view(handlers@) =~= g0.update(i as int, (event_type, g0[i as int].1.push(handler))));
                let u = groups_view(handlers@);
                assert forall|a: int, b: int| 0 <= a < b < u.len() implies u[a].0 != u[b].0 by {
                    assert(g0[a].0 != g0[b].0);
                }
            }
        } else {
            let mut group_handlers: Vec<B> = Vec::new();
            group_handlers.push(handler);
            handlers.push(HandlerGroup { event_type, handlers: group_handlers });
            proof {
                assert(groups_view(handlers@) =~= g0.push((event_type, seq![handler])));
                let u = groups_view(handlers@);
                assert forall|a: int, b: int| 0 <= a < b < u.len() implies u[a].0 != u[b].0 by {
                    if b == g0.len() {
                        assert(g0[a].0 != event_type);
                    } else {
                        assert(g0[a].0 != g0[b].0);
                    }
                }
            }
        }
        self.handlers = handlers;
        self
    }
}

/// Builds an event loop one handler at a time.
pub struct EventLoopBuilder<B> {
    event_loop: EventLoop<B>,
}

impl<B> View for EventLoopBuilder<B> {
    type V = Seq<(TypeId, Seq<B>)>;

    closed spec fn view(&self) -> Seq<(TypeId, Seq<B>)> {
        self.event_loop@
    }
}

impl<B> EventLoopBuilder<B> {
    /// No handlers yet.
    pub fn new() -> (b: Self)
        ensures
            b@ == Seq::<(TypeId, Seq<B>)>::empty(),
    {
        EventLoopBuilder { event_loop: EventLoop::new() }
    }

    /// Adds `handler` for events of type `event_type` (see `EventLoop::add_handler`).
    pub fn add_handler(self, event_type: TypeId, handler: B) -> (b: Self)
        ensures
            types_distinct(b@),
            b@ == with_handler(self@, event_type, handler),
    {
        let mut s = self;
        s.event_loop.add_handler(event_type, handler);
        s
    }

    /// The event loop with every handler added.
    pub fn build(self) -> (e: EventLoop<B>)
        ensures
            e@ == self@,
    {
        self.event_loop
    }
}

/// Adding a handler for a type puts it last among that type's handlers and leaves the
/// handlers of every other type as they were.
pub proof fn law_add_handler_appends<B>(groups: Seq<(TypeId, Seq<B>)>, t: TypeId, handler: B, u: TypeId)
    requires
        types_distinct(groups),
    ensures
        handlers_of(with_handler(groups, t, handler), t) == handlers_of(groups, t).push(handler),
        u != t ==> handlers_of(with_handler(groups, t, handler), u) == handlers_of(groups, u),
{
    let w = with_handler(groups, t, handler);
    if exists|i: int| 0 <= i < groups.len() && groups[i].0 == t {
        let i = choose|i: int| 0 <= i < groups.len() && groups[i].0 == t;
        assert(w[i].0 == t);
        let c = choose|c: int| 0 <= c < w.len() && w[c].0 == t;
        if c != i {
            if c < i {
                assert(groups[c].0 != groups[i].0);
            } else {
                assert(groups[i].0 != groups[c].0);
            }
        }
        if u != t {
            if exists|k: int| 0 <= k < groups.len() && groups[k].0 == u {
                let k = choose|k: int| 0 <= k < groups.len() && groups[k].0 == u;
                assert(w[k].0 == u);
                let d = choose|d: int| 0 <= d < w.len() && w[d].0 == u;
                if d != k {
                    if d < k {
                        assert(groups[d].0 != groups[k].0);
                    } else {
                        assert(groups[k].0 != groups[d].0);
                    }
                }
            } else {
                if exists|d: int| 0 <= d < w.len() && w[d].0 == u {
                    let d = choose|d: int| 0 <= d < w.len() && w[d].0 == u;
                    assert(groups[d].0 == u);
                }
            }
        }
    } else {
        let n = groups.len() as int;
        assert(w[n].0 == t);
        let c = choose|c: int| 0 <= c < w.len() && w[c].0 == t;
        if c != n {
            assert(groups[c].0 == t);
        }
        assert(handlers_of(groups, t) =~= Seq::<B>::empty());
        assert(w[n].1 =~= Seq::<B>::empty().push(handler));
        if u != t {
            if exists|k: int| 0 <= k < groups.len() && groups[k].0 == u {
                let k = choose|k: int| 0 <= k < groups.len() && groups[k].0 == u;
                assert(w[k].0 == u);
                let d = choose|d: int| 0 <= d < w.len() && w[d].0 == u;
                if d != k {
                    if d == n {
                    } else if d < k {
                        assert(groups[d].0 != groups[k].0);
                    } else {
                        assert(groups[k].0 != groups[d].0);
                    }
                }
            } else {
                if exists|d: int| 0 <= d < w.len() && w[d].0 == u {
                    let d = choose|d: int| 0 <= d < w.len() && w[d].0 == u;
                    assert(groups[d].0 == u);
                }
            }
        }
    }
}


/// The registry that adding each of `adds` (event type, handler), first to last, to an empty
/// one gives, by the builder or one call of `EventLoop::add_handler` after another.
pub open spec fn added<B>(adds: Seq<(TypeId, B)>) -> Seq<(TypeId, Seq<B>)>
    decreases adds.len(),
{
    if adds.len() == 0 {
        Seq::empty()
    } else {
        with_handler(added(adds.drop_last()), adds.last().0, adds.last().1)
    }
}

/// The handlers among `adds` that are for `u`, in the order they were added.
pub open spec fn handlers_added_for<B>(adds: Seq<(TypeId, B)>, u: TypeId) -> Seq<B>
    decreases adds.len(),
{
    if adds.len() == 0 {
        Seq::empty()
    } else if adds.last().0 == u {
        handlers_added_for(adds.drop_last(), u).push(adds.last().1)
    } else {
        handlers_added_for(adds.drop_last(), u)
    }
}

proof fn lemma_with_handler_keeps_types_distinct<B>(groups: Seq<(TypeId, Seq<B>)>, t: TypeId, handler: B)
    requires
        types_distinct(groups),
    ensures
        types_distinct(with_handler(groups, t, handler)),
{
    let w = with_handler(groups, t, handler);
    if exists|i: int| 0 <= i < groups.len() && groups[i].0 == t {
        let i = choose|i: int| 0 <= i < groups.len() && groups[i].0 == t;
        assert forall|a: int, b: int| 0 <= a < b < w.len() implies w[a].0 != w[b].0 by {
            assert(groups[a].0 != groups[b].0);
        }
    } else {
        assert forall|a: int, b: int| 0 <= a < b < w.len() implies w[a].0 != w[b].0 by {
            if b == groups.len() {
                assert(groups[a].0 != t);
            } else {
                assert(groups[a].0 != groups[b].0);
            }
        }
    }
}

/// Handlers added one after another, whether through `EventLoopBuilder` and `build` or by
/// calls of `EventLoop::add_handler` on a new event loop, leave every event type with exactly
/// the handlers added for it, in the order they were added, and no type with two groups; with
/// none added, no type has a handler.
pub proof fn law_built_handlers<B>(adds: Seq<(TypeId, B)>, u: TypeId)
    ensures
        types_distinct(added(adds)),
        handlers_of(added(adds), u) == handlers_added_for(adds, u),
    decreases adds.len(),
{
    if adds.len() == 0 {
        assert(handlers_of(Seq::<(TypeId, Seq<B>)>::empty(), u) =~= Seq::<B>::empty());
    } else {
        let prev = adds.drop_last();
        let (t, h) = adds.last();
        law_built_handlers(prev, u);
        lemma_with_handler_keeps_types_distinct(added(prev), t, h);
        law_add_handler_appends(added(prev), t, h, u);
    }
}

} // verus!
