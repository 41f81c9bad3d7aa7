//! The decisions of the publish/subscribe broker: who may subscribe to a message type, and
//! which subscribers a delivered message goes to.
//!
//! A message type has either one exclusive subscriber, which receives every message of the
//! type, or any number of shared subscribers, which all receive them. The broker loop turns
//! each request into a call of `Hermes::subscribe` or `Hermes::delivery_plan` and carries
//! out the answer (creating channels, sending messages).

use std::any::TypeId;
use vstd::prelude::*;

verus! {

#[verifier::external_type_specification]
#[verifier::external_body]
pub struct ExTypeId(TypeId);

/// `TypeId::of::<T>()`: the identifier of the type `T`. What identifier it is is not stated.
#[verifier::external_body]
fn type_id_of<T: ?Sized + 'static>() -> TypeId {
    TypeId::of::<T>()
}

/// `TypeId`'s `==`: true exactly when both identifiers are the same value.
#[verifier::external_body]
pub(crate) fn same_type(a: &TypeId, b: &TypeId) -> (r: bool)
    ensures
        r == (*a == *b),
{
    *a == *b
}

/// `uuid::Uuid::new_v4().as_u128()`: a random version-4 identifier. Its random bits are not
/// stated; the version nibble is 4 and the variant bits are `10`.
#[verifier::external_body]
pub(crate) fn random_v4_id() -> (id: u128)
    ensures
        (id >> 76u128) & 0xfu128 == 4,
        (id >> 62u128) & 0x3u128 == 2,
{
    uuid::Uuid::new_v4().as_u128()
}

/// The type of a message, by its type identifier. Two metas are the same message type exactly
/// when their identifiers are equal.
#[derive(Clone, Copy, Debug)]
pub struct MessageMeta {
    type_id: TypeId,
}

impl MessageMeta {
    pub closed spec fn spec_type_id(&self) -> TypeId {
        self.type_id
    }

    /// The meta of the message type `T`.
    pub fn of<T: 'static>() -> (m: Self) {
        MessageMeta { type_id: type_id_of::<T>() }
    }

    pub fn type_id(&self) -> (t: TypeId)
        ensures
            t == self.spec_type_id(),
    {
        self.type_id
    }

    /// Whether both metas are the same message type.
    pub fn same_as(&self, other: &MessageMeta) -> (b: bool)
        ensures
            b == (self.spec_type_id() == other.spec_type_id()),
    {
        same_type(&self.type_id, &other.type_id)
    }
}

/// Why a type-erased message could not be turned back into a message of a given type.
#[derive(Debug, Clone, PartialEq, Eq)]
pub enum CastError {
    /// The message is of another type; the text names both types.
    TypeMismatch(String),
    FailureToDowncast(String),
}

/// Errors that end the broker loop.
#[derive(Debug, Clone, PartialEq, Eq)]
pub enum HermesInternalError {
    OneShotSendError,
    /// Sending to a subscriber failed; the text describes the failure.
    SendError(String),
    SubscriberNotFound,
}

/// Why a subscription was refused or could not be completed.
#[derive(Debug, Clone, PartialEq, Eq)]
pub enum SubscribeToError {
    AlreadySubscribed,
    /// The message type already has an exclusive subscriber.
    ExclusiveSubscriberAlreadyExists,
    /// The message type already has shared subscribers, so it cannot get an exclusive one.
    SubscriberFound,
    FailedToReceiveResponse,
    /// The request could not be sent to the broker; the text describes the failure.
    SendError(String),
    /// The broker's answer could not be received; the text describes the failure.
    RecvOneshotError(String),
}

/// A subscriber as the broker knows it: identifier, name, and the sending end of its channel.
pub struct SubscriberRef<S> {
    pub subscriber_id: u128,
    pub subscriber_name: String,
    pub sender: S,
}

/// A shared subscriber as the broker knows it (the same parts as `SubscriberRef`).
pub struct MultiSubscriberRef<S> {
    pub subscriber_id: u128,
    pub subscriber_name: String,
    pub sender: S,
}

/// The exclusive subscriber of one message type.
pub struct ExclusiveEntry<S> {
    pub meta: MessageMeta,
    pub subscriber: SubscriberRef<S>,
}

/// The shared subscribers of one message type, in the order they subscribed.
pub struct SharedEntry {
    pub meta: MessageMeta,
    pub ids: Vec<u128>,
}

/// The broker state as a mathematical value.
pub ghost struct HermesView<S> {
    pub channel_capacity: usize,
    pub exclusive: Seq<ExclusiveEntry<S>>,
    pub shared_by_id: Seq<SubscriberRef<S>>,
    pub shared_by_type: Seq<(MessageMeta, Seq<u128>)>,
}

/// Where a delivered message goes.
#[derive(Debug, Clone, PartialEq, Eq)]
pub enum DeliveryPlan {
    /// To the exclusive subscriber at this position of the exclusive table.
    Exclusive(usize),
    /// To the shared subscribers with these ids (each once), before any criteria are applied.
    Shared(Vec<u128>),
}

/// Whether some subscriber in `subs` has id `id`.
pub open spec fn has_id<S>(subs: Seq<SubscriberRef<S>>, id: u128) -> bool {
    exists|i: int| 0 <= i < subs.len() && subs[i].subscriber_id == id
}

pub open spec fn no_duplicates(s: Seq<u128>) -> bool {
    forall|i: int, j: int| 0 <= i < j < s.len() ==> s[i] != s[j]
}

impl<S> HermesView<S> {
    pub open spec fn has_exclusive(self, t: TypeId) -> bool {
        exists|i: int| 0 <= i < self.exclusive.len() && self.exclusive[i].meta.spec_type_id() == t
    }

    pub open spec fn exclusive_index(self, t: TypeId) -> int {
        choose|i: int| 0 <= i < self.exclusive.len() && self.exclusive[i].meta.spec_type_id() == t
    }

    pub open spec fn has_shared(self, t: TypeId) -> bool {
        exists|i: int|
            0 <= i < self.shared_by_type.len() && self.shared_by_type[i].0.spec_type_id() == t
    }

    pub open spec fn shared_index(self, t: TypeId) -> int {
        choose|i: int|
            0 <= i < self.shared_by_type.len() && self.shared_by_type[i].0.spec_type_id() == t
    }

    /// The ids of the shared subscribers of `t`, in subscription order (empty if none).
    pub open spec fn shared_ids(self, t: TypeId) -> Seq<u128> {
        if self.has_shared(t) {
            self.shared_by_type[self.shared_index(t)].1
        } else {
            Seq::empty()
        }
    }

    pub open spec fn has_subscriber(self, id: u128) -> bool {
        has_id(self.shared_by_id, id)
    }

    pub open spec fn subscriber_index(self, id: u128) -> int {
        choose|i: int| 0 <= i < self.shared_by_id.len() && self.shared_by_id[i].subscriber_id == id
    }

    /// The tables are keyed (no key twice), no shared list holds an id twice, and every id in
    /// a shared list belongs to a known subscriber.
    pub open spec fn wf(self) -> bool {
        &&& forall|i: int, j: int|
            0 <= i < j < self.exclusive.len() ==> self.exclusive[i].meta.spec_type_id()
                != self.exclusive[j].meta.spec_type_id()
        &&& forall|i: int, j: int|
            0 <= i < j < self.shared_by_type.len() ==> self.shared_by_type[i].0.spec_type_id()
                != self.shared_by_type[j].0.spec_type_id()
        &&& forall|i: int, j: int|
            0 <= i < j < self.shared_by_id.len() ==> self.shared_by_id[i].subscriber_id
                != self.shared_by_id[j].subscriber_id
        &&& forall|i: int|
            0 <= i < self.shared_by_type.len() ==> no_duplicates(
                #[trigger] self.shared_by_type[i].1,
            )
        &&& forall|i: int, k: int|
            0 <= i < self.shared_by_type.len() && 0 <= k < self.shared_by_type[i].1.len()
                ==> self.has_subscriber(#[trigger] self.shared_by_type[i].1[k])
    }

    /// The shared tables after adding id `id` to the list of `meta`'s type (creating it if
    /// needed).
    pub open spec fn with_shared_id(self, meta: MessageMeta, id: u128) -> Seq<(MessageMeta, Seq<u128>)> {
        let t = meta.spec_type_id();
        if self.has_shared(t) {
            let i = self.shared_index(t);
            self.shared_by_type.update(i, (self.shared_by_type[i].0, self.shared_by_type[i].1.push(id)))
        } else {
            self.shared_by_type.push((meta, seq![id]))
        }
    }

    /// The state after a subscription request for `meta`'s type, with new subscriber
    /// `subscriber`, and the answer to the request.
    pub open spec fn subscribe(
        self,
        meta: MessageMeta,
        exclusive: bool,
        subscriber: SubscriberRef<S>,
    ) -> (HermesView<S>, Result<(), SubscribeToError>) {
        let t = meta.spec_type_id();
        let id = subscriber.subscriber_id;
        if exclusive {
            if self.has_exclusive(t) {
                (self, Err(SubscribeToError::ExclusiveSubscriberAlreadyExists))
            } else if self.has_shared(t) {
                (self, Err(SubscribeToError::SubscriberFound))
            } else {
                (
                    HermesView {
                        exclusive: self.exclusive.push(ExclusiveEntry { meta, subscriber }),
                        ..self
                    },
                    Ok(()),
                )
            }
        } else if self.shared_ids(t).contains(id) {
            (self, Err(SubscribeToError::AlreadySubscribed))
        } else if self.has_subscriber(id) {
            (
                HermesView { shared_by_type: self.with_shared_id(meta, id), ..self },
                Err(SubscribeToError::AlreadySubscribed),
            )
        } else {
            (
                HermesView {
                    shared_by_type: self.with_shared_id(meta, id),
                    shared_by_id: self.shared_by_id.push(subscriber),
                    ..self
                },
                Ok(()),
            )
        }
    }

    /// Whether `p` sends a message of type `t` where it must go: to the exclusive subscriber
    /// of `t` if there is one, otherwise to every shared subscriber of `t`.
    pub open spec fn is_plan_for(self, t: TypeId, p: DeliveryPlan) -> bool {
        match p {
            DeliveryPlan::Exclusive(i) => self.has_exclusive(t) && i == self.exclusive_index(t),
            DeliveryPlan::Shared(ids) => !self.has_exclusive(t) && ids@ == self.shared_ids(t),
        }
    }
}

/// The broker state.
pub struct Hermes<S> {
    channel_capacity: usize,
    exclusive: Vec<ExclusiveEntry<S>>,
    shared_by_id: Vec<SubscriberRef<S>>,
    shared_by_type: Vec<SharedEntry>,
}

impl<S> View for Hermes<S> {
    type V = HermesView<S>;

    closed spec fn view(&self) -> HermesView<S> {
        HermesView {
            channel_capacity: self.channel_capacity,
            exclusive: self.exclusive@,
            shared_by_id: self.shared_by_id@,
            shared_by_type: self.shared_by_type@.map_values(|e: SharedEntry| (e.meta, e.ids@)),
        }
    }
}

impl<S> Hermes<S> {
    /// The tables are well-formed (see `HermesView::wf`).
    #[verifier::type_invariant]
    closed spec fn inv(&self) -> bool {
        self@.wf()
    }

    /// A broker with no subscribers, whose channels will hold `channel_capacity` messages.
    pub fn new(channel_capacity: usize) -> (h: Self)
        ensures
            h@.wf(),
            h@.channel_capacity == channel_capacity,
            h@.exclusive.len() == 0,
            h@.shared_by_id.len() == 0,
            h@.shared_by_type.len() == 0,
    {
        let h = Hermes {
            channel_capacity,
            exclusive: Vec::new(),
            shared_by_id: Vec::new(),
            shared_by_type: Vec::new(),
        };
        proof {
            assert(h@.shared_by_type =~= Seq::<(MessageMeta, Seq<u128>)>::empty());
        }
        h
    }

    pub fn channel_capacity(&self) -> (c: usize)
        ensures
            c == self@.channel_capacity,
    {
        self.channel_capacity
    }

    fn find_exclusive(&self, t: &TypeId) -> (r: Option<usize>)
        ensures
            self@.wf(),
            match r {
                Some(i) => self@.has_exclusive(*t) && i == self@.exclusive_index(*t),
                None => !self@.has_exclusive(*t),
            },
    {
        proof {
            use_type_invariant(self);
        }
        let mut i: usize = 0;
        while i < self.exclusive.len()
            invariant
                self@.wf(),
                i <= self@.exclusive.len(),
                forall|j: int| 0 <= j < i ==> self@.exclusive[j].meta.spec_type_id() != *t,
            decreases self@.exclusive.len() - i,
        {
            if same_type(&self.exclusive[i].meta.type_id, t) {
                proof {
                    assert(self@.exclusive[i as int] == self.exclusive@[i as int]);
                    let v = self@;
                    assert(v.exclusive[i as int].meta.spec_type_id() == *t);
                    let c = v.exclusive_index(*t);
                    if c != i {
                        if c < i {
                            assert(v.exclusive[c].meta.spec_type_id() != v.exclusive[i as int].meta.spec_type_id());
                        } else {
                            assert(v.exclusive[i as int].meta.spec_type_id() != v.exclusive[c].meta.spec_type_id());
                        }
                    }
                }
                return Some(i);
            }
            i = i + 1;
        }
        None
    }

    fn find_shared(&self, t: &TypeId) -> (r: Option<usize>)
        ensures
            self@.wf(),
            match r {
                Some(i) => self@.has_shared(*t) && i == self@.shared_index(*t),
                None => !self@.has_shared(*t),
            },
    {
        proof {
            use_type_invariant(self);
        }
        let mut i: usize = 0;
        while i < self.shared_by_type.len()
            invariant
                self@.wf(),
                i <= self@.shared_by_type.len(),
                forall|j: int| 0 <= j < i ==> self@.shared_by_type[j].0.spec_type_id() != *t,
            decreases self@.shared_by_type.len() - i,
        {
            if same_type(&self.shared_by_type[i].meta.type_id, t) {
                proof {
                    let v = self@;
                    assert(v.shared_by_type[i as int].0.spec_type_id() == *t);
                    let c = v.shared_index(*t);
                    if c != i {
                        if c < i {
                            assert(v.shared_by_type[c].0.spec_type_id() != v.shared_by_type[i as int].0.spec_type_id());
                        } else {
                            assert(v.shared_by_type[i as int].0.spec_type_id() != v.shared_by_type[c].0.spec_type_id());
                        }
                    }
                }
                return Some(i);
            }
            i = i + 1;
        }
        None
    }

    fn find_subscriber(&self, id: u128) -> (r: Option<usize>)
        ensures
            self@.wf(),
            match r {
                Some(i) => self@.has_subscriber(id) && i == self@.subscriber_index(id),
                None => !self@.has_subscriber(id),
            },
    {
        proof {
            use_type_invariant(self);
        }
        let mut i: usize = 0;
        while i < self.shared_by_id.len()
            invariant
                self@.wf(),
                i <= self@.shared_by_id.len(),
                forall|j: int| 0 <= j < i ==> self@.shared_by_id[j].subscriber_id != id,
            decreases self@.shared_by_id.len() - i,
        {
            if self.shared_by_id[i].subscriber_id == id {
                proof {
                    let v = self@;
                    let c = v.subscriber_index(id);
                    if c != i {
                        if c < i {
                            assert(v.shared_by_id[c].subscriber_id != v.shared_by_id[i as int].subscriber_id);
                        } else {
                            assert(v.shared_by_id[i as int].subscriber_id != v.shared_by_id[c].subscriber_id);
                        }
                    }
                }
                return Some(i);
            }
            i = i + 1;
        }
        None
    }

    fn contains_id(ids: &Vec<u128>, id: u128) -> (b: bool)
        ensures
            b == ids@.contains(id),
    {
        let mut i: usize = 0;
        while i < ids.len()
            invariant
                i <= ids@.len(),
                forall|j: int| 0 <= j < i ==> ids@[j] != id,
            decreases ids@.len() - i,
        {
            if ids[i] == id {
                return true;
            }
            i = i + 1;
        }
        false
    }
}

/// Adding an exclusive subscriber for a type that has none keeps the tables well-formed.
proof fn lemma_wf_new_exclusive<S>(v0: HermesView<S>, meta: MessageMeta, subscriber: SubscriberRef<S>)
    requires
        v0.wf(),
        !v0.has_exclusive(meta.spec_type_id()),
    ensures
        (HermesView { exclusive: v0.exclusive.push(ExclusiveEntry { meta, subscriber }), ..v0 }).wf(),
{
    let t = meta.spec_type_id();
    let v = HermesView { exclusive: v0.exclusive.push(ExclusiveEntry { meta, subscriber }), ..v0 };
    assert forall|a: int, b: int|
        0 <= a < b < v.exclusive.len() implies v.exclusive[a].meta.spec_type_id()
        != v.exclusive[b].meta.spec_type_id() by {
        if b == v0.exclusive.len() {
            assert(v0.exclusive[a].meta.spec_type_id() != t);
        } else {
            assert(v0.exclusive[a].meta.spec_type_id() != v0.exclusive[b].meta.spec_type_id());
        }
    }
    assert forall|a: int, k: int|
        0 <= a < v.shared_by_type.len() && 0 <= k < v.shared_by_type[a].1.len()
            implies v.has_subscriber(#[trigger] v.shared_by_type[a].1[k]) by {
        assert(v0.has_subscriber(v0.shared_by_type[a].1[k]));
    }
}

/// Adding a shared subscriber with a new id keeps the tables well-formed; the id is then
/// known and the type tables are as before.
proof fn lemma_wf_new_subscriber<S>(v0: HermesView<S>, subscriber: SubscriberRef<S>)
    requires
        v0.wf(),
        !v0.has_subscriber(subscriber.subscriber_id),
    ensures
        (HermesView { shared_by_id: v0.shared_by_id.push(subscriber), ..v0 }).wf(),
        (HermesView { shared_by_id: v0.shared_by_id.push(subscriber), ..v0 }).has_subscriber(
            subscriber.subscriber_id,
        ),
{
    let id = subscriber.subscriber_id;
    let mid = HermesView { shared_by_id: v0.shared_by_id.push(subscriber), ..v0 };
    assert(mid.has_subscriber(id)) by {
        assert(mid.shared_by_id[v0.shared_by_id.len() as int].subscriber_id == id);
    }
    assert forall|x: u128| v0.has_subscriber(x) implies mid.has_subscriber(x) by {
        let k = choose|k: int| 0 <= k < v0.shared_by_id.len() && v0.shared_by_id[k].subscriber_id == x;
        assert(mid.shared_by_id[k] == v0.shared_by_id[k]);
    }
    assert forall|a: int, b: int|
        0 <= a < b < mid.shared_by_id.len() implies mid.shared_by_id[a].subscriber_id
        != mid.shared_by_id[b].subscriber_id by {
        if b == v0.shared_by_id.len() {
            assert(v0.shared_by_id[a].subscriber_id != id);
        }
    }
    assert forall|a: int, k: int|
        0 <= a < mid.shared_by_type.len() && 0 <= k < mid.shared_by_type[a].1.len()
            implies mid.has_subscriber(#[trigger] mid.shared_by_type[a].1[k]) by {
        assert(v0.has_subscriber(v0.shared_by_type[a].1[k]));
    }
}

/// Adding a known id to the shared list of a type that does not hold it keeps the tables
/// well-formed.
proof fn lemma_wf_shared_id<S>(v0: HermesView<S>, meta: MessageMeta, id: u128)
    requires
        v0.wf(),
        v0.has_subscriber(id),
        !v0.shared_ids(meta.spec_type_id()).contains(id),
    ensures
        (HermesView { shared_by_type: v0.with_shared_id(meta, id), ..v0 }).wf(),
{
    let t = meta.spec_type_id();
    let v = HermesView { shared_by_type: v0.with_shared_id(meta, id), ..v0 };
    if v0.has_shared(t) {
        let i = v0.shared_index(t);
        assert forall|a: int, b: int|
            0 <= a < b < v.shared_by_type.len() implies v.shared_by_type[a].0.spec_type_id()
            != v.shared_by_type[b].0.spec_type_id() by {
            assert(v0.shared_by_type[a].0.spec_type_id() != v0.shared_by_type[b].0.spec_type_id());
        }
        assert forall|a: int| 0 <= a < v.shared_by_type.len() implies no_duplicates(
            #[trigger] v.shared_by_type[a].1,
        ) by {
            assert(no_duplicates(v0.shared_by_type[a].1));
            if a == i {
                let l = v0.shared_by_type[i].1;
                assert forall|x: int, y: int| 0 <= x < y < l.push(id).len() implies l.push(id)[x]
                    != l.push(id)[y] by {
                    if y == l.len() {
                        assert(l[x] == l.push(id)[x]);
                    }
                }
            }
        }
        assert forall|a: int, k: int|
            0 <= a < v.shared_by_type.len() && 0 <= k < v.shared_by_type[a].1.len()
                implies v.has_subscriber(#[trigger] v.shared_by_type[a].1[k]) by {
            if a == i && k == v0.shared_by_type[i].1.len() {
            } else {
                assert(v.shared_by_type[a].1[k] == v0.shared_by_type[a].1[k]);
                assert(v0.has_subscriber(v0.shared_by_type[a].1[k]));
            }
        }
    } else {
        assert forall|a: int, b: int|
            0 <= a < b < v.shared_by_type.len() implies v.shared_by_type[a].0.spec_type_id()
            != v.shared_by_type[b].0.spec_type_id() by {
            if b < v0.shared_by_type.len() {
                assert(v0.shared_by_type[a].0.spec_type_id() != v0.shared_by_type[b].0.spec_type_id());
            } else {
                assert(v0.shared_by_type[a].0.spec_type_id() != t);
            }
        }
        assert forall|a: int| 0 <= a < v.shared_by_type.len() implies no_duplicates(
            #[trigger] v.shared_by_type[a].1,
        ) by {
            if a < v0.shared_by_type.len() {
                assert(no_duplicates(v0.shared_by_type[a].1));
            }
        }
        assert forall|a: int, k: int|
            0 <= a < v.shared_by_type.len() && 0 <= k < v.shared_by_type[a].1.len()
                implies v.has_subscriber(#[trigger] v.shared_by_type[a].1[k]) by {
            if a < v0.shared_by_type.len() {
                assert(v0.has_subscriber(v0.shared_by_type[a].1[k]));
            }
        }
    }
}

impl<S> Hermes<S> {
    /// Takes the tables out, leaving an empty broker behind.
    fn take_parts(&mut self) -> (r: (usize, Vec<ExclusiveEntry<S>>, Vec<SubscriberRef<S>>, Vec<SharedEntry>))
        ensures
            r.0 == old(self)@.channel_capacity,
            r.1@ == old(self)@.exclusive,
            r.2@ == old(self)@.shared_by_id,
            r.3@.map_values(|e: SharedEntry| (e.meta, e.ids@)) == old(self)@.shared_by_type,
    {
        let mut taken = Hermes::new(self.channel_capacity);
        std::mem::swap(self, &mut taken);
        let Hermes { channel_capacity, exclusive, shared_by_id, shared_by_type } = taken;
        (channel_capacity, exclusive, shared_by_id, shared_by_type)
    }

    /// Handles a subscription request for `meta`'s type from the new subscriber `subscriber`
    /// (whose id the broker chose) and returns the answer.
    pub fn subscribe_with(
        &mut self,
        meta: MessageMeta,
        exclusive: bool,
        subscriber: SubscriberRef<S>,
    ) -> (r: Result<(), SubscribeToError>)
        ensures
            final(self)@.wf(),
            (final(self)@, r) == old(self)@.subscribe(meta, exclusive, subscriber),
    {
        proof {
            use_type_invariant(&*self);
        }
        let ghost v0 = self@;
        let t = meta.type_id;
        if exclusive {
            if self.find_exclusive(&t).is_some() {
                return Err(SubscribeToError::ExclusiveSubscriberAlreadyExists);
            }
            if self.find_shared(&t).is_some() {
                return Err(SubscribeToError::SubscriberFound);
            }
            proof {
                lemma_wf_new_exclusive(v0, meta, subscriber);
            }
            let (cap, mut exclusive_v, by_id, by_type) = self.take_parts();
            exclusive_v.push(ExclusiveEntry { meta, subscriber });
            proof {
                assert(exclusive_v@ =~= v0.exclusive.push(ExclusiveEntry { meta, subscriber }));
            }
            *self = Hermes { channel_capacity: cap, exclusive: exclusive_v, shared_by_id: by_id, shared_by_type: by_type };
            return Ok(());
        }
        let id = subscriber.subscriber_id;
        let shared = self.find_shared(&t);
        if let Some(i) = shared {
            if Self::contains_id(&self.shared_by_type[i].ids, id) {
                return Err(SubscribeToError::AlreadySubscribed);
            }
        }
        proof {
            if shared is None {
                assert(v0.shared_ids(t) =~= Seq::<u128>::empty());
            }
        }
        let known = self.find_subscriber(id).is_some();
        let ghost v1 = if known {
            v0
        } else {
            HermesView { shared_by_id: v0.shared_by_id.push(subscriber), ..v0 }
        };
        proof {
            if !known {
                lemma_wf_new_subscriber(v0, subscriber);
            } else {
                assert(v0.has_subscriber(id));
            }
            assert(v1.shared_by_type == v0.shared_by_type);
            assert(v1.has_shared(t) == v0.has_shared(t));
            assert(v1.shared_index(t) == v0.shared_index(t));
            assert(v1.shared_ids(t) == v0.shared_ids(t));
            assert(v1.with_shared_id(meta, id) == v0.with_shared_id(meta, id));
            lemma_wf_shared_id(v1, meta, id);
        }
        let (cap, exclusive_v, mut by_id, mut by_type) = self.take_parts();
        if !known {
            by_id.push(subscriber);
        }
        let ghost before_types = by_type@;
        match shared {
            Some(i) => {
                let entry_meta = by_type[i].meta;
                let mut ids = by_type[i].ids.clone();
                ids.push(id);
                by_type.set(i, SharedEntry { meta: entry_meta, ids });
            },
            None => {
                let mut ids: Vec<u128> = Vec::new();
                ids.push(id);
                by_type.push(SharedEntry { meta, ids });
            },
        }
        proof {
            assert(by_id@ =~= v1.shared_by_id);
            assert(by_type@.map_values(|e: SharedEntry| (e.meta, e.ids@)) =~= v1.with_shared_id(meta, id));
        }
        *self = Hermes { channel_capacity: cap, exclusive: exclusive_v, shared_by_id: by_id, shared_by_type: by_type };
        if known {
            Err(SubscribeToError::AlreadySubscribed)
        } else {
            Ok(())
        }
    }
}

impl<S> Hermes<S> {
    /// Handles a subscription request for `meta`'s type from a subscriber called `name` whose
    /// messages go to `sender`. The new subscriber gets a fresh random id.
    pub fn subscribe(&mut self, name: String, meta: MessageMeta, exclusive: bool, sender: S) -> (r:
        Result<(), SubscribeToError>)
        ensures
            final(self)@.wf(),
            exists|id: u128|
                (final(self)@, r) == old(self)@.subscribe(
                    meta,
                    exclusive,
                    SubscriberRef { subscriber_id: id, subscriber_name: name, sender },
                ),
    {
        let subscriber_id = random_v4_id();
        let subscriber = SubscriberRef { subscriber_id, subscriber_name: name, sender };
        self.subscribe_with(meta, exclusive, subscriber)
    }

    /// Where a message of type `t` goes (see `HermesView::is_plan_for`).
    pub fn delivery_plan(&self, t: &TypeId) -> (p: DeliveryPlan)
        ensures
            self@.wf(),
            self@.is_plan_for(*t, p),
    {
        match self.find_exclusive(t) {
            Some(i) => DeliveryPlan::Exclusive(i),
            None => match self.find_shared(t) {
                Some(i) => {
                    let ids = self.shared_by_type[i].ids.clone();
                    DeliveryPlan::Shared(ids)
                },
                None => {
                    let ids: Vec<u128> = Vec::new();
                    proof {
                        assert(ids@ =~= self@.shared_ids(*t));
                    }
                    DeliveryPlan::Shared(ids)
                },
            },
        }
    }

    /// The exclusive subscriber at position `i` of the exclusive table, if there is one.
    pub fn exclusive_subscriber(&self, i: usize) -> (s: Option<&SubscriberRef<S>>)
        ensures
            i < self@.exclusive.len() ==> s == Some(&self@.exclusive[i as int].subscriber),
            i >= self@.exclusive.len() ==> s is None,
    {
        if i < self.exclusive.len() {
            Some(&self.exclusive[i].subscriber)
        } else {
            None
        }
    }

    /// The shared subscriber with id `id`, if there is one.
    pub fn subscriber(&self, id: u128) -> (s: Option<&SubscriberRef<S>>)
        ensures
            self@.wf(),
            match s {
                Some(s) => self@.has_subscriber(id) && *s == self@.shared_by_id[self@.subscriber_index(id)],
                None => !self@.has_subscriber(id),
            },
    {
        match self.find_subscriber(id) {
            Some(i) => Some(&self.shared_by_id[i]),
            None => None,
        }
    }
}

/// Selects the shared subscribers a message goes to; written by the user.
pub trait Criteria<S>: Send + Sync {
    /// Whether the criteria select `subscriber`: a function of the criteria and the subscriber.
    ///
    /// An implementation defines this to say what its exec method computes; where it does not,
    /// the contracts that speak of it say nothing of that implementation.
    open spec fn spec_matches(&self, subscriber: SubscriberRef<S>) -> bool {
        vstd::pervasive::arbitrary()
    }

    /// Whether the criteria select `subscriber`.
    fn matches(&self, subscriber: &SubscriberRef<S>) -> (b: bool)
        ensures
            b == self.spec_matches(*subscriber),
    ;
}

/// Selects the subscribers with a given name.
pub struct SubscriberNameCriteria {
    pub name: &'static str,
}

impl<S> Criteria<S> for SubscriberNameCriteria {
    open spec fn spec_matches(&self, subscriber: SubscriberRef<S>) -> bool {
        subscriber.subscriber_name@ == self.name@
    }

    fn matches(&self, subscriber: &SubscriberRef<S>) -> (b: bool) {
        let name = String::from_str(self.name);
        subscriber.subscriber_name == name
    }
}

/// Selects the subscriber with a given id.
pub struct SubscriberIdCriteria {
    pub subscriber_id: u128,
}

impl<S> Criteria<S> for SubscriberIdCriteria {
    open spec fn spec_matches(&self, subscriber: SubscriberRef<S>) -> bool {
        subscriber.subscriber_id == self.subscriber_id
    }

    fn matches(&self, subscriber: &SubscriberRef<S>) -> (b: bool) {
        subscriber.subscriber_id == self.subscriber_id
    }
}

/// Whether a shared message goes to the subscriber with id `id` under `criteria`: it is a
/// subscriber of the broker `v`, and the criteria select it.
pub open spec fn chosen_by<S, C: Criteria<S> + ?Sized>(v: HermesView<S>, criteria: &C) -> spec_fn(
    u128,
) -> bool {
    |id: u128| v.has_subscriber(id) && criteria.spec_matches(v.shared_by_id[v.subscriber_index(id)])
}

impl<S> Hermes<S> {
    /// The shared subscribers among `ids` that a message with `criteria` goes to, in the order
    /// of `ids`: those that are subscribers and that the criteria select, or all of `ids` when
    /// there are no criteria.
    pub fn recipients<C: Criteria<S> + ?Sized>(&self, ids: Vec<u128>, criteria: Option<&C>) -> (r: Vec<
        u128,
    >)
        ensures
            match criteria {
                None => r@ == ids@,
                Some(c) => r@ == ids@.filter(chosen_by(self@, c)),
            },
    {
        match criteria {
            None => ids,
            Some(c) => {
                let ghost pred = chosen_by(self@, c);
                let mut r: Vec<u128> = Vec::new();
                let mut i: usize = 0;
                proof {
                    reveal(Seq::filter);
                    assert(ids@.take(0) =~= Seq::<u128>::empty());
                }
                while i < ids.len()
                    invariant
                        i <= ids@.len(),
                        pred == chosen_by(self@, c),
                        r@ == ids@.take(i as int).filter(pred),
                    decreases ids@.len() - i,
                {
                    let id = ids[i];
                    let found = self.subscriber(id);
                    let keep = match found {
                        Some(s) => c.matches(s),
                        None => false,
                    };
                    proof {
                        assert(pred(id) == (self@.has_subscriber(id) && c.spec_matches(
                            self@.shared_by_id[self@.subscriber_index(id)],
                        )));
                        match found {
                            Some(s) => {
                                assert(keep == c.spec_matches(*s));
                            },
                            None => {},
                        }
                    }
                    proof {
                        reveal(Seq::filter);
                        assert(ids@.take(i + 1).drop_last() =~= ids@.take(i as int));
                        assert(ids@.take(i + 1).last() == id);
                        assert(keep == pred(id));
                    }
                    if keep {
                        r.push(id);
                    }
                    i = i + 1;
                }
                proof {
                    assert(ids@.take(ids@.len() as int) =~= ids@);
                }
                r
            },
        }
    }
}

/// After an exclusive subscription to a type is accepted, every message of that type goes to
/// that subscriber alone.
pub proof fn law_exclusive_subscriber_receives<S>(
    v: HermesView<S>,
    meta: MessageMeta,
    subscriber: SubscriberRef<S>,
)
    requires
        v.wf(),
        v.subscribe(meta, true, subscriber).1 is Ok,
    ensures
        ({
            let w = v.subscribe(meta, true, subscriber).0;
            let t = meta.spec_type_id();
            &&& w.has_exclusive(t)
            &&& w.exclusive[w.exclusive_index(t)].subscriber == subscriber
        }),
{
    let w = v.subscribe(meta, true, subscriber).0;
    let t = meta.spec_type_id();
    let n = v.exclusive.len() as int;
    assert(w.exclusive[n].meta.spec_type_id() == t);
    let c = w.exclusive_index(t);
    if c != n {
        assert(v.exclusive[c].meta.spec_type_id() == t);
        assert(v.has_exclusive(t));
    }
}

/// An exclusive subscription is refused, and nothing changes, when the type already has an
/// exclusive subscriber or has shared subscribers.
pub proof fn law_exclusive_refusals<S>(v: HermesView<S>, meta: MessageMeta, subscriber: SubscriberRef<S>)
    requires
        v.wf(),
    ensures
        v.has_exclusive(meta.spec_type_id()) ==> v.subscribe(meta, true, subscriber) == (
            v,
            Err::<(), SubscribeToError>(SubscribeToError::ExclusiveSubscriberAlreadyExists),
        ),
        !v.has_exclusive(meta.spec_type_id()) && v.has_shared(meta.spec_type_id()) ==> v.subscribe(
            meta,
            true,
            subscriber,
        ) == (v, Err::<(), SubscribeToError>(SubscribeToError::SubscriberFound)),
{
}

/// After a shared subscription is accepted, the subscriber is known by its id and is among
/// those a message of the type goes to when the type has no exclusive subscriber.
pub proof fn law_shared_subscriber_receives<S>(
    v: HermesView<S>,
    meta: MessageMeta,
    subscriber: SubscriberRef<S>,
)
    requires
        v.wf(),
        v.subscribe(meta, false, subscriber).1 is Ok,
    ensures
        ({
            let w = v.subscribe(meta, false, subscriber).0;
            let t = meta.spec_type_id();
            &&& w.shared_ids(t).contains(subscriber.subscriber_id)
            &&& w.has_subscriber(subscriber.subscriber_id)
            &&& w.has_exclusive(t) == v.has_exclusive(t)
        }),
{
    let w = v.subscribe(meta, false, subscriber).0;
    let t = meta.spec_type_id();
    let id = subscriber.subscriber_id;
    let n = v.shared_by_id.len() as int;
    assert(w.shared_by_id[n].subscriber_id == id);
    if v.has_shared(t) {
        let i = v.shared_index(t);
        assert(w.shared_by_type[i].0.spec_type_id() == t);
        let c = w.shared_index(t);
        if c != i {
            assert(v.shared_by_type[c].0.spec_type_id() == t);
        }
        assert(w.has_shared(t));
        assert(w.shared_ids(t) == v.shared_by_type[i].1.push(id));
        assert(w.shared_ids(t)[v.shared_by_type[i].1.len() as int] == id);
        assert(w.shared_ids(t).contains(id));
    } else {
        let m = v.shared_by_type.len() as int;
        assert(w.shared_by_type[m].0.spec_type_id() == t);
        let c = w.shared_index(t);
        if c != m {
            assert(v.shared_by_type[c].0.spec_type_id() == t);
        }
        assert(w.has_shared(t));
        assert(w.shared_ids(t)[0] == id);
        assert(w.shared_ids(t).contains(id));
    }
    assert(w.has_subscriber(id));
    assert(w.exclusive == v.exclusive);
    assert(w.has_exclusive(t) == v.has_exclusive(t));
}

} // verus!
