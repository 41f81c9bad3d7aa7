//! A store meant to act as an intermediate layer between a realtime thread and a monitoring
//! thread.
//!
//! The realtime thread writes its metrics into a triple buffer without allocating and publishes
//! them at the end of each iteration; the monitoring thread reads the latest published batch.
//! Batches the monitor is too slow to read are lost: this is not a database. A batch is
//! reported once: reading the same batch again is refused.

use crate::rt_metrics::{RtMetric, StoreError};
use std::time::Instant as StdInstant;
use triple_buffer::Input as TripleInput;
use triple_buffer::Output as TripleOutput;
use vstd::prelude::*;

verus! {

#[verifier::external_type_specification]
#[verifier::external_body]
#[verifier::reject_recursive_types(T)]
pub struct ExInput<T: Send>(TripleInput<T>);

#[verifier::external_type_specification]
#[verifier::external_body]
#[verifier::reject_recursive_types(T)]
pub struct ExOutput<T: Send>(TripleOutput<T>);

/// `Instant::now()`: the current moment. Which moment it is is not stated.
#[verifier::external_body]
pub(crate) fn instant_now() -> StdInstant {
    StdInstant::now()
}

/// `Instant`'s `==`: true exactly when both are the same moment.
#[verifier::external_body]
fn same_instant(a: &StdInstant, b: &StdInstant) -> (r: bool)
    ensures
        r == (*a == *b),
{
    *a == *b
}

/// Whether the vDSO of the process exports `__vdso_clock_gettime`
/// (`vdso::Vdso::locate()` and `lookup`). The answer depends on the machine and is not stated.
#[verifier::external_body]
pub(crate) fn vdso_clock_gettime_available() -> bool {
    vdso::Vdso::locate().and_then(|x| x.lookup("__vdso_clock_gettime")).is_some()
}

/// `triple_buffer::triple_buffer(initial)`: the two ends of a triple buffer whose buffers start
/// as copies of `initial`. What the ends hold is not stated.
#[verifier::external_body]
pub(crate) fn new_triple_buffer<T: Clone + Send>(initial: &T) -> (TripleInput<T>, TripleOutput<T>) {
    triple_buffer::triple_buffer(initial)
}

/// `Input::input_buffer_mut`: the buffer the producer writes. What it holds (a recycled
/// buffer) is not stated.
#[verifier::external_body]
pub(crate) fn input_buffer_mut<T: Send>(input: &mut TripleInput<T>) -> &mut T {
    input.input_buffer_mut()
}

/// `Input::publish`: makes the input buffer the latest value for the consumer and returns
/// whether an unread value was overwritten. Neither is stated.
#[verifier::external_body]
pub(crate) fn publish_input<T: Send>(input: &mut TripleInput<T>) -> bool {
    input.publish()
}

/// `Output::read`: the latest value published. Which value it is is not stated.
#[verifier::external_body]
pub(crate) fn read_output<T: Send>(output: &mut TripleOutput<T>) -> &T {
    output.read()
}

/// A collection of realtime metrics, written by the user.
pub trait MetricCollection: Sized {
    /// The metrics of the collection, by value.
    fn iter_mut(&mut self) -> Vec<RtMetric>;
}

/// One batch of metrics, with the moments its iteration began and ended.
#[derive(Debug, Clone)]
pub struct RtStore<M> {
    /// Whether the batch was completed (`exit` was called) since the last reset.
    pub initialized: bool,
    pub metrics: M,
    pub start_instant: Option<StdInstant>,
    pub end_instant: Option<StdInstant>,
}

impl<M: MetricCollection + Clone + Send + Default> RtStore<M> {
    /// A fresh store with default metrics, or `None` when the machine offers no vDSO
    /// `clock_gettime` (reading the clock would then be a system call, which a realtime loop
    /// cannot afford).
    pub fn init() -> (r: Option<Self>)
        ensures
            r matches Some(s) ==> !s.initialized && s.start_instant is None && s.end_instant is None,
    {
        if !vdso_clock_gettime_available() {
            return None;
        }
        Some(RtStore { initialized: false, metrics: M::default(), start_instant: None, end_instant: None })
    }

    /// The writing and the reading end of a triple buffer whose buffers start as this store.
    pub fn split(self) -> (r: (RtStoreWriter<M>, StoreReader<M>))
        ensures
            r.1.spec_last_read() is None,
    {
        let (producer, consumer) = new_triple_buffer(&self);
        (RtStoreWriter { store: producer }, StoreReader { store: consumer, last_read_start_instant: None })
    }
}

impl<M: MetricCollection> RtStore<M> {
    /// Marks the batch as not completed and forgets its moments. The collection's `iter_mut`
    /// is called and every metric it yields is reset; the metrics are yielded by value, so the
    /// collection keeps whatever `iter_mut` leaves in it.
    pub fn reset(&mut self)
        ensures
            !final(self).initialized,
            final(self).start_instant is None,
            final(self).end_instant is None,
    {
        self.initialized = false;
        self.start_instant = None;
        self.end_instant = None;
        let metrics = self.metrics.iter_mut();
        let mut i: usize = 0;
        while i < metrics.len()
            invariant
                i <= metrics@.len(),
                !self.initialized,
                self.start_instant is None,
                self.end_instant is None,
            decreases metrics@.len() - i,
        {
            let mut metric = metrics[i];
            metric.reset();
            i = i + 1;
        }
    }

    /// Records `now` as the moment the iteration began.
    pub fn enter_at(&mut self, now: StdInstant)
        ensures
            final(self).start_instant == Some(now),
            final(self).initialized == old(self).initialized,
            final(self).end_instant == old(self).end_instant,
            final(self).metrics == old(self).metrics,
    {
        self.start_instant = Some(now);
    }

    /// Records the moment the iteration begins: the clock's reading, taken in this call.
    pub fn enter(&mut self)
        ensures
            final(self).start_instant is Some,
            final(self).initialized == old(self).initialized,
            final(self).end_instant == old(self).end_instant,
            final(self).metrics == old(self).metrics,
    {
        self.enter_at(instant_now());
    }

    /// Records `now` as the moment the iteration ended and marks the batch as completed.
    pub fn exit_at(&mut self, now: StdInstant)
        ensures
            final(self).end_instant == Some(now),
            final(self).initialized,
            final(self).start_instant == old(self).start_instant,
            final(self).metrics == old(self).metrics,
    {
        self.end_instant = Some(now);
        self.initialized = true;
    }

    /// Records the moment the iteration ends, the clock's reading taken in this call, and
    /// marks the batch as completed.
    pub fn exit(&mut self)
        ensures
            final(self).end_instant is Some,
            final(self).initialized,
            final(self).start_instant == old(self).start_instant,
            final(self).metrics == old(self).metrics,
    {
        self.exit_at(instant_now());
    }
}

/// The realtime thread's end of the store.
#[verifier::reject_recursive_types(M)]
pub struct RtStoreWriter<M: Send> {
    store: TripleInput<RtStore<M>>,
}

impl<M: MetricCollection + Send> RtStoreWriter<M> {
    /// The metrics of the batch being written.
    pub fn inner(&mut self) -> &mut M {
        &mut input_buffer_mut(&mut self.store).metrics
    }

    /// To be called when an iteration begins: resets the batch being written (see
    /// `RtStore::reset`) and records the moment.
    pub fn reset_and_enter(&mut self) {
        let buffer = input_buffer_mut(&mut self.store);
        buffer.reset();
        buffer.enter();
    }

    /// To be called when an iteration ends: records the moment, marks the batch as completed
    /// and publishes it to the reader.
    pub fn exit_and_publish(&mut self) {
        let buffer = input_buffer_mut(&mut self.store);
        buffer.exit();
        let _has_buffer_been_overwritten = publish_input(&mut self.store);
    }
}

/// Whether a published batch may be reported, given the start moment of the batch reported
/// last: it must be completed, and it must not be the batch reported last.
pub open spec fn read_verdict(
    last_read_start_instant: Option<StdInstant>,
    initialized: bool,
    start_instant: Option<StdInstant>,
) -> Result<(), StoreError> {
    if !initialized {
        Err(StoreError::StoreNotInitialized)
    } else if last_read_start_instant is Some && last_read_start_instant == start_instant {
        Err(StoreError::StoreAlreadyRead)
    } else {
        Ok(())
    }
}

/// A batch is reported at most once and only once completed: an incomplete batch is refused,
/// and once a batch with a start moment has been reported (the reader then remembers that
/// moment), reading it again is refused.
pub proof fn law_batch_reported_once(last: Option<StdInstant>, start: Option<StdInstant>)
    ensures
        read_verdict(last, false, start) == Err::<(), StoreError>(StoreError::StoreNotInitialized),
        start is Some ==> read_verdict(start, true, start) == Err::<(), StoreError>(
            StoreError::StoreAlreadyRead,
        ),
        last is None ==> read_verdict(last, true, start) == Ok::<(), StoreError>(()),
{
}

/// Decides whether a published batch may be reported (see `read_verdict`).
pub fn check_read(
    last_read_start_instant: &Option<StdInstant>,
    initialized: bool,
    start_instant: &Option<StdInstant>,
) -> (r: Result<(), StoreError>)
    ensures
        r == read_verdict(*last_read_start_instant, initialized, *start_instant),
{
    if !initialized {
        return Err(StoreError::StoreNotInitialized);
    }
    match (last_read_start_instant, start_instant) {
        (Some(last), Some(start)) => {
            if same_instant(last, start) {
                Err(StoreError::StoreAlreadyRead)
            } else {
                Ok(())
            }
        },
        _ => Ok(()),
    }
}

/// The monitoring thread's end of the store.
#[verifier::reject_recursive_types(M)]
pub struct StoreReader<M: Send> {
    store: TripleOutput<RtStore<M>>,
    last_read_start_instant: Option<StdInstant>,
}

impl<M: Send> StoreReader<M> {
    /// The start moment of the batch reported last.
    pub closed spec fn spec_last_read(&self) -> Option<StdInstant> {
        self.last_read_start_instant
    }
}

impl<M: MetricCollection + Send + Clone> StoreReader<M> {
    /// The latest published batch, if it is completed and was not reported already; the
    /// reader then remembers it as reported.
    pub fn read(&mut self) -> (r: Result<&RtStore<M>, StoreError>)
        ensures
            r matches Ok(s) ==> read_verdict(old(self).spec_last_read(), s.initialized, s.start_instant)
                is Ok && final(self).spec_last_read() == s.start_instant,
            r is Err ==> final(self).spec_last_read() == old(self).spec_last_read() && (r matches Err(
                StoreError::StoreNotInitialized,
            ) || r matches Err(StoreError::StoreAlreadyRead)),
    {
        let last = self.last_read_start_instant;
        let store = read_output(&mut self.store);
        match check_read(&last, store.initialized, &store.start_instant) {
            Ok(()) => {
                self.last_read_start_instant = store.start_instant;
                Ok(store)
            },
            Err(e) => Err(e),
        }
    }
}

/// A published batch is refused exactly when it is not completed (`StoreNotInitialized`) or
/// when it starts at the moment of the batch reported last (`StoreAlreadyRead`); a completed
/// batch that starts at another moment, or the first one read, is reported.
pub proof fn law_read_refuses_only_incomplete_or_repeated(
    last: Option<StdInstant>,
    initialized: bool,
    start: Option<StdInstant>,
)
    ensures
        !initialized ==> read_verdict(last, initialized, start) == Err::<(), StoreError>(
            StoreError::StoreNotInitialized,
        ),
        initialized && last is Some && last == start ==> read_verdict(last, initialized, start)
            == Err::<(), StoreError>(StoreError::StoreAlreadyRead),
        initialized && (last is None || last != start) ==> read_verdict(last, initialized, start)
            is Ok,
{
}

} // verus!
