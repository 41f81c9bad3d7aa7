//! Fixed-size metrics that a realtime loop can update without allocating: messages, counters,
//! gauges, instants and bounded time series.
//!
//! Floating-point samples are kept as the bit patterns of their `f32` (`f32::to_bits`); these
//! metrics only store and copy them.

use std::time::Instant as StdInstant;
use vstd::prelude::*;

verus! {

#[verifier::external_type_specification]
#[verifier::external_body]
pub struct ExStdInstant(StdInstant);

/// `Instant`'s `clone`: an `Instant` is `Copy`, and its clone is the same instant.
pub assume_specification[ <StdInstant as Clone>::clone ](i: &StdInstant) -> (r: StdInstant)
    ensures
        r == *i,
;

/// The number of samples a time series holds at most.
pub const MAX_TS_VALUES: usize = 256;

/// The kinds of metric.
#[derive(Debug, Clone, Copy, PartialEq, Eq, Hash)]
pub enum MetricKind {
    Message,
    Counter,
    Gauge,
    TimeSeries,
    Instant,
}

/// Why a store operation failed.
#[derive(Debug, Clone, Copy, PartialEq, Eq)]
pub enum StoreError {
    LockError,
    /// The time series already holds `MAX_TS_VALUES` samples.
    FullTimeSeries,
    /// Nothing has been published yet.
    StoreNotInitialized,
    /// The published batch was read already.
    StoreAlreadyRead,
}

/// A bounded series of samples (bits of `f32`s), oldest first.
#[derive(Debug, Clone, Copy)]
pub struct TimeSeries {
    values: [u32; 256],
    n_values: usize,
}

impl TimeSeries {
    /// The samples held, oldest first.
    pub closed spec fn samples(&self) -> Seq<u32> {
        self.values@.take(self.n_values as int)
    }

    /// Every storage slot, including those past the samples.
    pub closed spec fn slots(&self) -> Seq<u32> {
        self.values@
    }

    pub closed spec fn wf(&self) -> bool {
        self.n_values <= MAX_TS_VALUES
    }

    /// An empty series, every slot zero.
    pub fn new() -> (ts: Self)
        ensures
            ts.wf(),
            ts.samples() == Seq::<u32>::empty(),
            ts.slots() == Seq::new(MAX_TS_VALUES as nat, |i: int| 0u32),
    {
        let ts = TimeSeries { values: [0u32; 256], n_values: 0 };
        proof {
            assert(ts.values@ =~= Seq::new(MAX_TS_VALUES as nat, |i: int| 0u32));
        }
        ts
    }

    /// Appends a sample, or fails with `FullTimeSeries` when the series is full.
    pub fn push(&mut self, value: u32) -> (r: Result<(), StoreError>)
        requires
            old(self).wf(),
        ensures
            final(self).wf(),
            old(self).samples().len() >= MAX_TS_VALUES ==> r == Err::<(), StoreError>(
                StoreError::FullTimeSeries,
            ) && *final(self) == *old(self),
            old(self).samples().len() < MAX_TS_VALUES ==> r is Ok && final(self).samples()
                == old(self).samples().push(value),
    {
        if self.n_values >= MAX_TS_VALUES {
            return Err(StoreError::FullTimeSeries);
        }
        let n = self.n_values;
        self.values[n] = value;
        self.n_values = n + 1;
        proof {
            assert(self.samples() =~= old(self).samples().push(value));
        }
        Ok(())
    }

    pub fn len(&self) -> (n: usize)
        requires
            self.wf(),
        ensures
            n == self.samples().len(),
    {
        self.n_values
    }

    pub fn is_empty(&self) -> (b: bool)
        requires
            self.wf(),
        ensures
            b == (self.samples().len() == 0),
    {
        self.n_values == 0
    }

    /// Every storage slot (all `MAX_TS_VALUES` of them), samples first.
    pub fn values(&self) -> (v: &[u32])
        ensures
            v@ == self.slots(),
    {
        self.values.as_slice()
    }
}

impl Default for TimeSeries {
    /// An empty series (see `TimeSeries::new`).
    fn default() -> (ts: Self)
        ensures
            ts.wf(),
            ts.samples() == Seq::<u32>::empty(),
            ts.slots() == Seq::new(MAX_TS_VALUES as nat, |i: int| 0u32),
    {
        Self::new()
    }
}

/// A text set by the realtime loop.
#[derive(Debug, Clone, Copy)]
pub struct Message(pub &'static str);

impl Default for Message {
    /// The empty message.
    fn default() -> (m: Self)
        ensures
            m.0@ == Seq::<char>::empty(),
    {
        proof {
            reveal_strlit("");
        }
        Message("")
    }
}

impl Message {
    pub fn set(&mut self, message: &'static str)
        ensures
            final(self).0 == message,
    {
        *self = Message(message);
    }

    pub fn value(&self) -> (m: &str)
        ensures
            m == self.0,
    {
        self.0
    }
}

/// A cumulative value (bits of an `f32`).
#[derive(Debug, Clone, Copy)]
pub struct Counter(pub u32);

impl Default for Counter {
    /// Zero.
    fn default() -> (c: Self)
        ensures
            c.0 == 0,
    {
        Counter(0)
    }
}

impl Counter {
    pub fn value(&self) -> (v: u32)
        ensures
            v == self.0,
    {
        self.0
    }
}

/// A value that goes up and down (bits of an `f32`).
#[derive(Debug, Clone, Copy)]
pub struct Gauge(pub u32);

impl Default for Gauge {
    /// Zero.
    fn default() -> (g: Self)
        ensures
            g.0 == 0,
    {
        Gauge(0)
    }
}

impl Gauge {
    pub fn set(&mut self, value: u32)
        ensures
            final(self).0 == value,
    {
        self.0 = value;
    }

    pub fn value(&self) -> (v: u32)
        ensures
            v == self.0,
    {
        self.0
    }
}

/// A moment, once it has been set.
#[derive(Debug, Clone, Copy)]
pub struct Instant(pub Option<StdInstant>);

impl Default for Instant {
    /// Not set.
    fn default() -> (i: Self)
        ensures
            i.0 is None,
    {
        Instant(None)
    }
}

impl Instant {
    pub fn set(&mut self, instant: StdInstant)
        ensures
            final(self).0 == Some(instant),
    {
        *self = Instant(Some(instant));
    }

    pub fn reset(&mut self)
        ensures
            final(self).0 is None,
    {
        *self = Instant(None);
    }

    pub fn is_set(&self) -> (b: bool)
        ensures
            b == self.0 is Some,
    {
        self.0.is_some()
    }

    pub fn value(&self) -> (v: Option<StdInstant>)
        ensures
            v == self.0,
    {
        self.0
    }
}

/// One metric of a realtime collection.
#[derive(Debug, Clone, Copy)]
pub enum RtMetric {
    Message(Message),
    TimeSeries(TimeSeries),
    Counter(Counter),
    Gauge(Gauge),
    Instant(Instant),
}

impl RtMetric {
    pub open spec fn spec_kind(&self) -> MetricKind {
        match self {
            RtMetric::Message(_) => MetricKind::Message,
            RtMetric::TimeSeries(_) => MetricKind::TimeSeries,
            RtMetric::Counter(_) => MetricKind::Counter,
            RtMetric::Gauge(_) => MetricKind::Gauge,
            RtMetric::Instant(_) => MetricKind::Instant,
        }
    }

    /// Whether the metric holds its kind's default value.
    pub open spec fn is_default(&self) -> bool {
        match self {
            RtMetric::Message(m) => m.0@ == Seq::<char>::empty(),
            RtMetric::TimeSeries(ts) => ts.wf() && ts.samples() == Seq::<u32>::empty() && ts.slots()
                == Seq::new(MAX_TS_VALUES as nat, |i: int| 0u32),
            RtMetric::Counter(c) => c.0 == 0,
            RtMetric::Gauge(g) => g.0 == 0,
            RtMetric::Instant(i) => i.0 is None,
        }
    }

    pub fn kind(&self) -> (k: MetricKind)
        ensures
            k == self.spec_kind(),
    {
        match self {
            RtMetric::Message(_) => MetricKind::Message,
            RtMetric::TimeSeries(_) => MetricKind::TimeSeries,
            RtMetric::Counter(_) => MetricKind::Counter,
            RtMetric::Gauge(_) => MetricKind::Gauge,
            RtMetric::Instant(_) => MetricKind::Instant,
        }
    }

    /// Puts the metric back to its kind's default value.
    pub fn reset(&mut self)
        ensures
            final(self).spec_kind() == old(self).spec_kind(),
            final(self).is_default(),
    {
        match self {
            RtMetric::Message(m) => *m = Message::default(),
            RtMetric::TimeSeries(ts) => *ts = TimeSeries::default(),
            RtMetric::Counter(c) => *c = Counter::default(),
            RtMetric::Gauge(g) => *g = Gauge::default(),
            RtMetric::Instant(i) => *i = Instant::default(),
        }
    }
}

impl From<Message> for RtMetric {
    fn from(value: Message) -> (m: Self) {
        RtMetric::Message(value)
    }
}

impl vstd::std_specs::convert::FromSpecImpl<Message> for RtMetric {
    open spec fn obeys_from_spec() -> bool {
        true
    }

    open spec fn from_spec(v: Message) -> RtMetric {
        RtMetric::Message(v)
    }
}

impl From<TimeSeries> for RtMetric {
    fn from(value: TimeSeries) -> (m: Self) {
        RtMetric::TimeSeries(value)
    }
}

impl vstd::std_specs::convert::FromSpecImpl<TimeSeries> for RtMetric {
    open spec fn obeys_from_spec() -> bool {
        true
    }

    open spec fn from_spec(v: TimeSeries) -> RtMetric {
        RtMetric::TimeSeries(v)
    }
}

impl From<Counter> for RtMetric {
    fn from(value: Counter) -> (m: Self) {
        RtMetric::Counter(value)
    }
}

impl vstd::std_specs::convert::FromSpecImpl<Counter> for RtMetric {
    open spec fn obeys_from_spec() -> bool {
        true
    }

    open spec fn from_spec(v: Counter) -> RtMetric {
        RtMetric::Counter(v)
    }
}

impl From<Gauge> for RtMetric {
    fn from(value: Gauge) -> (m: Self) {
        RtMetric::Gauge(value)
    }
}

impl vstd::std_specs::convert::FromSpecImpl<Gauge> for RtMetric {
    open spec fn obeys_from_spec() -> bool {
        true
    }

    open spec fn from_spec(v: Gauge) -> RtMetric {
        RtMetric::Gauge(v)
    }
}

impl From<Instant> for RtMetric {
    fn from(value: Instant) -> (m: Self) {
        RtMetric::Instant(value)
    }
}

impl vstd::std_specs::convert::FromSpecImpl<Instant> for RtMetric {
    open spec fn obeys_from_spec() -> bool {
        true
    }

    open spec fn from_spec(v: Instant) -> RtMetric {
        RtMetric::Instant(v)
    }
}

} // verus!
