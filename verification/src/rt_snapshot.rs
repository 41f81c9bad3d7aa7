//! A realtime store over a fixed set of `COUNT` metrics, each found by its name through the
//! user's `MetricCollection`. The realtime thread sets values through an `RtStoreWriter`; the
//! monitoring thread reads heap-allocated snapshots through an `RtStoreReader`.
//!
//! Floating-point values are kept as the bit patterns of their `f32` (`f32::to_bits`); the
//! store only stores and copies them.

use crate::rt_metrics::{MetricKind, MAX_TS_VALUES};
use crate::rt_store::{
    input_buffer_mut, instant_now, new_triple_buffer, publish_input, read_output,
    vdso_clock_gettime_available,
};
use std::marker::PhantomData;
use std::time::Instant as StdInstant;
use triple_buffer::Input as TripleInput;
use triple_buffer::Output as TripleOutput;
use vstd::prelude::*;

verus! {

/// The value of a realtime metric. It is `Copy` and has a fixed size, so the realtime thread
/// never allocates.
#[derive(Debug, Clone, Copy)]
pub enum RtMetricValue {
    /// A message is a string
    Message(&'static str),
    /// A counter is a cumulative metric that represents a single numerical value that only ever
    /// goes up (the bits of an `f32`)
    Counter(u32),
    /// A gauge is a single value that can go up and down (the bits of an `f32`)
    Gauge(u32),
    /// A single span of values with a start timestamp (- until present): the first `n_values`
    /// slots of `values` are the samples
    TimeSeries {
        values: [u32; 256],
        n_values: usize,
        start_instant: Option<StdInstant>,
        end_instant: Option<StdInstant>,
    },
    Instant(Option<StdInstant>),
}

/// Every slot zero.
pub open spec fn zero_slots() -> Seq<u32> {
    Seq::new(MAX_TS_VALUES as nat, |i: int| 0u32)
}

fn zeroed_slots() -> (a: [u32; 256])
    ensures
        a@ == zero_slots(),
{
    let a = [0u32; 256];
    assert(a@ =~= zero_slots());
    a
}

impl RtMetricValue {
    pub open spec fn spec_kind(self) -> MetricKind {
        match self {
            RtMetricValue::Message(_) => MetricKind::Message,
            RtMetricValue::Counter(_) => MetricKind::Counter,
            RtMetricValue::Gauge(_) => MetricKind::Gauge,
            RtMetricValue::TimeSeries { .. } => MetricKind::TimeSeries,
            RtMetricValue::Instant(_) => MetricKind::Instant,
        }
    }

    /// Whether the value is the default of its kind: the empty message, zero, an empty time
    /// series with zeroed slots and no instants, an unset instant.
    pub open spec fn is_default(self) -> bool {
        match self {
            RtMetricValue::Message(m) => m@ == Seq::<char>::empty(),
            RtMetricValue::Counter(c) => c == 0,
            RtMetricValue::Gauge(g) => g == 0,
            RtMetricValue::TimeSeries { values, n_values, start_instant, end_instant } => {
                &&& values@ == zero_slots()
                &&& n_values == 0
                &&& start_instant is None
                &&& end_instant is None
            },
            RtMetricValue::Instant(i) => i is None,
        }
    }

    /// At most `MAX_TS_VALUES` samples in a time series.
    pub open spec fn wf(self) -> bool {
        self matches RtMetricValue::TimeSeries { n_values, .. } ==> n_values <= MAX_TS_VALUES
    }

    /// The default value of `kind`.
    pub fn default_with_kind(kind: MetricKind) -> (v: Self)
        ensures
            v.spec_kind() == kind,
            v.is_default(),
    {
        let v = match kind {
            MetricKind::Message => {
                proof {
                    reveal_strlit("");
                }
                let e = "";
                assert(e@ =~= Seq::<char>::empty());
                RtMetricValue::Message(e)
            },
            MetricKind::Counter => RtMetricValue::Counter(0),
            MetricKind::Gauge => RtMetricValue::Gauge(0),
            MetricKind::TimeSeries => RtMetricValue::TimeSeries {
                values: zeroed_slots(),
                n_values: 0,
                start_instant: None,
                end_instant: None,
            },
            MetricKind::Instant => RtMetricValue::Instant(None),
        };
        v
    }

    pub fn kind(&self) -> (k: MetricKind)
        ensures
            k == self.spec_kind(),
    {
        match self {
            RtMetricValue::Message(_) => MetricKind::Message,
            RtMetricValue::Counter(_) => MetricKind::Counter,
            RtMetricValue::Gauge(_) => MetricKind::Gauge,
            RtMetricValue::TimeSeries { .. } => MetricKind::TimeSeries,
            RtMetricValue::Instant(_) => MetricKind::Instant,
        }
    }

    /// Puts the value back to the default of its kind.
    pub fn reset(&mut self)
        ensures
            final(self).spec_kind() == old(self).spec_kind(),
            final(self).is_default(),
    {
        let k = self.kind();
        *self = RtMetricValue::default_with_kind(k);
    }
}

/// A metric of the realtime loop: a static name and a value.
#[derive(Debug, Clone, Copy)]
pub struct RtMetric {
    pub name: &'static str,
    pub value: RtMetricValue,
}

impl RtMetric {
    /// A metric named `name` holding the default value of `kind`.
    pub fn default_with_name(name: &'static str, kind: MetricKind) -> (m: Self)
        ensures
            m.name == name,
            m.value.spec_kind() == kind,
            m.value.is_default(),
    {
        RtMetric { name, value: RtMetricValue::default_with_kind(kind) }
    }

    /// Puts the value back to the default of its kind; the name stays.
    pub fn reset_value(&mut self)
        ensures
            final(self).name == old(self).name,
            final(self).value.spec_kind() == old(self).value.spec_kind(),
            final(self).value.is_default(),
    {
        self.value.reset();
    }
}

/// A metric value as the monitoring thread sees it, on the heap.
#[derive(Debug)]
pub enum MetricValue {
    /// A message is a string
    Message(String),
    /// A counter (the bits of an `f32`)
    Counter(u32),
    /// A gauge (the bits of an `f32`)
    Gauge(u32),
    /// The samples of a time series and the moments it began and ended
    TimeSeries { values: Vec<u32>, start_instant: StdInstant, end_instant: StdInstant },
    Instant(StdInstant),
}

/// The mathematical value of a `MetricValue`.
pub ghost enum MetricValueView {
    Message(Seq<char>),
    Counter(u32),
    Gauge(u32),
    TimeSeries { values: Seq<u32>, start_instant: StdInstant, end_instant: StdInstant },
    Instant(StdInstant),
}

impl View for MetricValue {
    type V = MetricValueView;

    open spec fn view(&self) -> MetricValueView {
        match self {
            MetricValue::Message(m) => MetricValueView::Message(m@),
            MetricValue::Counter(c) => MetricValueView::Counter(*c),
            MetricValue::Gauge(g) => MetricValueView::Gauge(*g),
            MetricValue::TimeSeries { values, start_instant, end_instant } => MetricValueView::TimeSeries {
                values: values@,
                start_instant: *start_instant,
                end_instant: *end_instant,
            },
            MetricValue::Instant(i) => MetricValueView::Instant(*i),
        }
    }
}

/// Whether a realtime value can be turned into a heap value: a time series must have both its
/// instants and at most `MAX_TS_VALUES` samples, an instant must be set.
pub open spec fn convertible(v: RtMetricValue) -> bool {
    match v {
        RtMetricValue::TimeSeries { n_values, start_instant, end_instant, .. } => {
            &&& n_values <= MAX_TS_VALUES
            &&& start_instant is Some
            &&& end_instant is Some
        },
        RtMetricValue::Instant(i) => i is Some,
        _ => true,
    }
}

/// The heap value of a convertible realtime value: the same text or number, the samples of a
/// time series with its two instants, the instant.
pub open spec fn converted(v: RtMetricValue) -> MetricValueView {
    match v {
        RtMetricValue::Message(m) => MetricValueView::Message(m@),
        RtMetricValue::Counter(c) => MetricValueView::Counter(c),
        RtMetricValue::Gauge(g) => MetricValueView::Gauge(g),
        RtMetricValue::TimeSeries { values, n_values, start_instant, end_instant } => MetricValueView::TimeSeries {
            values: values@.take(n_values as int),
            start_instant: start_instant->0,
            end_instant: end_instant->0,
        },
        RtMetricValue::Instant(i) => MetricValueView::Instant(i->0),
    }
}

fn samples_of(values: &[u32; 256], n_values: usize) -> (r: Vec<u32>)
    requires
        n_values <= MAX_TS_VALUES,
    ensures
        r@ == values@.take(n_values as int),
{
    let mut r: Vec<u32> = Vec::new();
    let mut i: usize = 0;
    while i < n_values
        invariant
            n_values <= MAX_TS_VALUES,
            i <= n_values,
            r@ == values@.take(i as int),
        decreases n_values - i,
    {
        r.push(values[i]);
        proof {
            assert(r@ =~= values@.take(i + 1));
        }
        i = i + 1;
    }
    r
}

impl MetricValue {
    /// The heap value of a realtime value (see `converted`).
    pub fn from(value: &RtMetricValue) -> (r: MetricValue)
        requires
            convertible(*value),
        ensures
            r@ == converted(*value),
    {
        match value {
            RtMetricValue::Message(s) => MetricValue::Message((*s).to_owned()),
            RtMetricValue::Counter(c) => MetricValue::Counter(*c),
            RtMetricValue::Gauge(g) => MetricValue::Gauge(*g),
            RtMetricValue::TimeSeries { values, n_values, start_instant, end_instant } => {
                let start = match start_instant {
                    Some(s) => *s,
                    None => {
                        proof {
                            assert(false);
                        }
                        instant_now()
                    },
                };
                let end = match end_instant {
                    Some(e) => *e,
                    None => {
                        proof {
                            assert(false);
                        }
                        instant_now()
                    },
                };
                MetricValue::TimeSeries {
                    values: samples_of(values, *n_values),
                    start_instant: start,
                    end_instant: end,
                }
            },
            RtMetricValue::Instant(ts) => match ts {
                Some(t) => MetricValue::Instant(*t),
                None => {
                    proof {
                        assert(false);
                    }
                    MetricValue::Instant(instant_now())
                },
            },
        }
    }
}

/// Why an operation on the store failed.
#[derive(Debug, Clone, PartialEq, Eq)]
pub enum StoreError {
    LockError,
    MetricAlreadyExists,
    /// No metric of the collection has the name.
    MetricNotFound,
    /// The metric is of another kind; `expected` names the kind the operation needs.
    MetricTypeMismatch { expected: String, found: String },
    /// The time series already holds `MAX_TS_VALUES` samples.
    FullTimeSeries,
}

/// `r` is the refusal of an operation that needs a metric of the kind named `expected`.
pub open spec fn is_mismatch(r: Result<(), StoreError>, expected: Seq<char>) -> bool {
    r matches Err(StoreError::MetricTypeMismatch { expected: e, found: f }) && e@ == expected
        && f@ == "RtMetricValue"@
}

fn mismatch(expected: &str) -> (r: Result<(), StoreError>)
    ensures
        is_mismatch(r, expected@),
{
    Err(StoreError::MetricTypeMismatch { expected: expected.to_owned(), found: "RtMetricValue".to_owned() })
}

/// The fixed set of metrics of a realtime loop, implemented by the user: the position of each
/// metric in the store, found by its name, and the name at each position.
pub trait MetricCollection<const COUNT: usize>: Send {
    /// The position of the metric named `name` (`None` when the collection has none): a
    /// function of the name alone.
    ///
    /// An implementation defines this to say what its exec method computes; where it does not,
    /// the contracts that speak of it say nothing of that implementation.
    open spec fn spec_index(name: Seq<char>) -> Option<usize> {
        vstd::pervasive::arbitrary()
    }

    /// The position of the metric named `name`, if the collection has one.
    fn get_index(name: &str) -> (r: Option<usize>)
        ensures
            r == Self::spec_index(name@),
            r matches Some(i) ==> i < COUNT,
    ;

    fn get_name(index: usize) -> &'static str;
}

/// The metrics of one iteration of the realtime loop, in the positions the collection gives.
#[derive(Debug)]
pub struct RtStore<const COUNT: usize, C> {
    phantom: PhantomData<C>,
    metrics: [RtMetric; COUNT],
}

impl<const COUNT: usize, C> Clone for RtStore<COUNT, C> {
    /// The same metrics.
    fn clone(&self) -> (r: Self)
        ensures
            r.spec_metrics() == self.spec_metrics(),
    {
        RtStore { phantom: PhantomData, metrics: self.metrics }
    }
}

/// `ms` with the value at position `i` replaced by `v`.
pub open spec fn with_value(ms: Seq<RtMetric>, i: int, v: RtMetricValue) -> Seq<RtMetric> {
    ms.update(i, RtMetric { value: v, ..ms[i] })
}

/// `new` is `old` with the sample `x` appended to its time series.
pub open spec fn sample_pushed(old: RtMetric, new: RtMetric, x: u32) -> bool {
    &&& new.name == old.name
    &&& old.value matches RtMetricValue::TimeSeries {
        values: v0,
        n_values: n0,
        start_instant: s0,
        end_instant: e0,
    }
    &&& new.value matches RtMetricValue::TimeSeries { values, n_values, start_instant, end_instant }
    &&& values@ == v0@.update(n0 as int, x)
    &&& n_values == n0 + 1
    &&& start_instant == s0
    &&& end_instant == e0
}

/// `new` is `old` as `enter` leaves it when the clock reads `now`: the name and kind kept, the
/// default value of the kind, except that a time series starts at `now`.
pub open spec fn entered(old: RtMetric, new: RtMetric, now: StdInstant) -> bool {
    &&& new.name == old.name
    &&& new.value.spec_kind() == old.value.spec_kind()
    &&& match new.value {
        RtMetricValue::TimeSeries { values, n_values, start_instant, end_instant } => {
            &&& values@ == zero_slots()
            &&& n_values == 0
            &&& start_instant == Some(now)
            &&& end_instant is None
        },
        _ => new.value.is_default(),
    }
}

/// `new` is `old` as `exit` leaves it when the clock reads `now`: a time series ends at `now`,
/// everything else stays.
pub open spec fn exited(old: RtMetric, new: RtMetric, now: StdInstant) -> bool {
    match old.value {
        RtMetricValue::TimeSeries { values: v0, n_values: n0, start_instant: s0, .. } => {
            &&& new.name == old.name
            &&& new.value matches RtMetricValue::TimeSeries {
                values,
                n_values,
                start_instant,
                end_instant,
            }
            &&& values == v0
            &&& n_values == n0
            &&& start_instant == s0
            &&& end_instant == Some(now)
        },
        _ => new == old,
    }
}

/// Every metric of `new` is the one at the same position of `old` as `enter` leaves it at
/// `now`.
pub open spec fn all_entered(old: Seq<RtMetric>, new: Seq<RtMetric>, now: StdInstant) -> bool {
    forall|i: int| 0 <= i < old.len() ==> entered(old[i], #[trigger] new[i], now)
}

/// Every metric of `new` is the one at the same position of `old` as `exit` leaves it at
/// `now`.
pub open spec fn all_exited(old: Seq<RtMetric>, new: Seq<RtMetric>, now: StdInstant) -> bool {
    forall|i: int| 0 <= i < old.len() ==> exited(old[i], #[trigger] new[i], now)
}

impl<const COUNT: usize, C> RtStore<COUNT, C> {
    /// The metrics, by position.
    pub closed spec fn spec_metrics(&self) -> Seq<RtMetric> {
        self.metrics@
    }

    /// Whether every metric can be turned into a heap value (see `convertible`).
    pub fn all_convertible(&self) -> (b: bool)
        ensures
            b == forall|i: int|
                0 <= i < self.spec_metrics().len() ==> convertible(#[trigger] self.spec_metrics()[i].value),
    {
        let mut i: usize = 0;
        while i < COUNT
            invariant
                i <= COUNT,
                self.metrics@.len() == COUNT,
                forall|j: int| 0 <= j < i ==> convertible(#[trigger] self.metrics@[j].value),
            decreases COUNT - i,
        {
            let ok = match &self.metrics[i].value {
                RtMetricValue::TimeSeries { n_values, start_instant, end_instant, .. } => *n_values
                    <= MAX_TS_VALUES && start_instant.is_some() && end_instant.is_some(),
                RtMetricValue::Instant(t) => t.is_some(),
                _ => true,
            };
            if !ok {
                return false;
            }
            i = i + 1;
        }
        true
    }

    /// Appends `value` to the time series at `index` (the position the collection gave for a
    /// name). Fails with `MetricNotFound` when there is no position, with `FullTimeSeries`
    /// when the series holds `MAX_TS_VALUES` samples, and with a mismatch when the metric
    /// there is not a time series; the store is then unchanged.
    pub fn push_value_at(&mut self, index: Option<usize>, value: u32) -> (r: Result<(), StoreError>)
        requires
            index matches Some(i) ==> i < COUNT,
        ensures
            index is None ==> r == Err::<(), StoreError>(StoreError::MetricNotFound)
                && final(self).spec_metrics() == old(self).spec_metrics(),
            index matches Some(i) ==> match old(self).spec_metrics()[i as int].value {
                RtMetricValue::TimeSeries { n_values, .. } => if n_values >= MAX_TS_VALUES {
                    r == Err::<(), StoreError>(StoreError::FullTimeSeries)
                        && final(self).spec_metrics() == old(self).spec_metrics()
                } else {
                    &&& r is Ok
                    &&& final(self).spec_metrics().len() == old(self).spec_metrics().len()
                    &&& sample_pushed(
                        old(self).spec_metrics()[i as int],
                        final(self).spec_metrics()[i as int],
                        value,
                    )
                    &&& forall|j: int|
                        0 <= j < old(self).spec_metrics().len() && j != i
                            ==> final(self).spec_metrics()[j] == old(self).spec_metrics()[j]
                },
                _ => is_mismatch(r, "TimeSeries"@) && final(self).spec_metrics() == old(
                    self,
                ).spec_metrics(),
            },
    {
        let i = match index {
            Some(i) => i,
            None => return Err(StoreError::MetricNotFound),
        };
        let m = self.metrics[i];
        match m.value {
            RtMetricValue::TimeSeries { values, n_values, start_instant, end_instant } => {
                if n_values >= MAX_TS_VALUES {
                    return Err(StoreError::FullTimeSeries);
                }
                let mut values = values;
                values[n_values] = value;
                self.metrics[i] = RtMetric {
                    name: m.name,
                    value: RtMetricValue::TimeSeries {
                        values,
                        n_values: n_values + 1,
                        start_instant,
                        end_instant,
                    },
                };
                Ok(())
            },
            _ => mismatch("TimeSeries"),
        }
    }

    /// Sets the message at `index` (the position the collection gave for a name). Fails with
    /// `MetricNotFound` when there is no position and with a mismatch when the metric there is
    /// not a message; the store is then unchanged.
    pub fn set_message_at(&mut self, index: Option<usize>, message: &'static str) -> (r: Result<(), StoreError>)
        requires
            index matches Some(i) ==> i < COUNT,
        ensures
            index is None ==> r == Err::<(), StoreError>(StoreError::MetricNotFound)
                && final(self).spec_metrics() == old(self).spec_metrics(),
            index matches Some(i) ==> old(self).spec_metrics()[i as int].value is Message ==> r is Ok
                && final(self).spec_metrics() == with_value(old(self).spec_metrics(), i as int, RtMetricValue::Message(message)),
            index matches Some(i) ==> !(old(self).spec_metrics()[i as int].value is Message) ==> is_mismatch(r, "Message"@)
                && final(self).spec_metrics() == old(self).spec_metrics(),
    {
        let i = match index {
            Some(i) => i,
            None => return Err(StoreError::MetricNotFound),
        };
        if let RtMetricValue::Message(_) = self.metrics[i].value {
            let m = self.metrics[i];
            self.metrics[i] = RtMetric { value: RtMetricValue::Message(message), ..m };
            Ok(())
        } else {
            mismatch("Message")
        }
    }

    /// Sets the counter at `index` (see `set_message_at`).
    pub fn set_counter_at(&mut self, index: Option<usize>, value: u32) -> (r: Result<(), StoreError>)
        requires
            index matches Some(i) ==> i < COUNT,
        ensures
            index is None ==> r == Err::<(), StoreError>(StoreError::MetricNotFound)
                && final(self).spec_metrics() == old(self).spec_metrics(),
            index matches Some(i) ==> old(self).spec_metrics()[i as int].value is Counter ==> r is Ok
                && final(self).spec_metrics() == with_value(old(self).spec_metrics(), i as int, RtMetricValue::Counter(value)),
            index matches Some(i) ==> !(old(self).spec_metrics()[i as int].value is Counter) ==> is_mismatch(r, "Counter"@)
                && final(self).spec_metrics() == old(self).spec_metrics(),
    {
        let i = match index {
            Some(i) => i,
            None => return Err(StoreError::MetricNotFound),
        };
        if let RtMetricValue::Counter(_) = self.metrics[i].value {
            let m = self.metrics[i];
            self.metrics[i] = RtMetric { value: RtMetricValue::Counter(value), ..m };
            Ok(())
        } else {
            mismatch("Counter")
        }
    }

    /// Sets the gauge at `index` (see `set_message_at`).
    pub fn set_gauge_at(&mut self, index: Option<usize>, value: u32) -> (r: Result<(), StoreError>)
        requires
            index matches Some(i) ==> i < COUNT,
        ensures
            index is None ==> r == Err::<(), StoreError>(StoreError::MetricNotFound)
                && final(self).spec_metrics() == old(self).spec_metrics(),
            index matches Some(i) ==> old(self).spec_metrics()[i as int].value is Gauge ==> r is Ok
                && final(self).spec_metrics() == with_value(old(self).spec_metrics(), i as int, RtMetricValue::Gauge(value)),
            index matches Some(i) ==> !(old(self).spec_metrics()[i as int].value is Gauge) ==> is_mismatch(r, "Gauge"@)
                && final(self).spec_metrics() == old(self).spec_metrics(),
    {
        let i = match index {
            Some(i) => i,
            None => return Err(StoreError::MetricNotFound),
        };
        if let RtMetricValue::Gauge(_) = self.metrics[i].value {
            let m = self.metrics[i];
            self.metrics[i] = RtMetric { value: RtMetricValue::Gauge(value), ..m };
            Ok(())
        } else {
            mismatch("Gauge")
        }
    }

    /// Sets the instant at `index` (see `set_message_at`).
    pub fn set_instant_at(&mut self, index: Option<usize>, instant: StdInstant) -> (r: Result<(), StoreError>)
        requires
            index matches Some(i) ==> i < COUNT,
        ensures
            index is None ==> r == Err::<(), StoreError>(StoreError::MetricNotFound)
                && final(self).spec_metrics() == old(self).spec_metrics(),
            index matches Some(i) ==> old(self).spec_metrics()[i as int].value is Instant ==> r is Ok
                && final(self).spec_metrics() == with_value(old(self).spec_metrics(), i as int, RtMetricValue::Instant(Some(instant))),
            index matches Some(i) ==> !(old(self).spec_metrics()[i as int].value is Instant) ==> is_mismatch(r, "Instant"@)
                && final(self).spec_metrics() == old(self).spec_metrics(),
    {
        let i = match index {
            Some(i) => i,
            None => return Err(StoreError::MetricNotFound),
        };
        if let RtMetricValue::Instant(_) = self.metrics[i].value {
            let m = self.metrics[i];
            self.metrics[i] = RtMetric { value: RtMetricValue::Instant(Some(instant)), ..m };
            Ok(())
        } else {
            mismatch("Instant")
        }
    }

    /// Every metric goes back to the default of its kind, and every time series starts at
    /// `now`.
    pub fn enter_at(&mut self, now: StdInstant)
        ensures
            final(self).spec_metrics().len() == old(self).spec_metrics().len(),
            forall|i: int|
                0 <= i < old(self).spec_metrics().len() ==> entered(
                    old(self).spec_metrics()[i],
                    #[trigger] final(self).spec_metrics()[i],
                    now,
                ),
    {
        let ghost before = self.metrics@;
        let mut i: usize = 0;
        while i < COUNT
            invariant
                i <= COUNT,
                before.len() == COUNT,
                self.metrics@.len() == COUNT,
                forall|j: int| 0 <= j < i ==> entered(before[j], #[trigger] self.metrics@[j], now),
                forall|j: int| i <= j < COUNT ==> #[trigger] self.metrics@[j] == before[j],
            decreases COUNT - i,
        {
            let mut m = self.metrics[i];
            m.reset_value();
            if let RtMetricValue::TimeSeries { values, n_values, end_instant, .. } = m.value {
                m = RtMetric {
                    name: m.name,
                    value: RtMetricValue::TimeSeries {
                        values,
                        n_values,
                        start_instant: Some(now),
                        end_instant,
                    },
                };
            }
            self.metrics[i] = m;
            i = i + 1;
        }
    }

    /// To be called when an iteration of the realtime loop begins: reads the clock once and
    /// enters the batch at that moment (see `enter_at`).
    pub fn enter(&mut self)
        ensures
            final(self).spec_metrics().len() == old(self).spec_metrics().len(),
            exists|now: StdInstant| #[trigger] all_entered(old(self).spec_metrics(), final(self).spec_metrics(), now),
    {
        let now = instant_now();
        self.enter_at(now);
        assert(all_entered(old(self).spec_metrics(), self.spec_metrics(), now));
    }

    /// Every time series ends at `now`; everything else stays.
    pub fn exit_at(&mut self, now: StdInstant)
        ensures
            final(self).spec_metrics().len() == old(self).spec_metrics().len(),
            forall|i: int|
                0 <= i < old(self).spec_metrics().len() ==> exited(
                    old(self).spec_metrics()[i],
                    #[trigger] final(self).spec_metrics()[i],
                    now,
                ),
    {
        let ghost before = self.metrics@;
        let mut i: usize = 0;
        while i < COUNT
            invariant
                i <= COUNT,
                before.len() == COUNT,
                self.metrics@.len() == COUNT,
                forall|j: int| 0 <= j < i ==> exited(before[j], #[trigger] self.metrics@[j], now),
                forall|j: int| i <= j < COUNT ==> #[trigger] self.metrics@[j] == before[j],
            decreases COUNT - i,
        {
            let m = self.metrics[i];
            if let RtMetricValue::TimeSeries { values, n_values, start_instant, .. } = m.value {
                self.metrics[i] = RtMetric {
                    name: m.name,
                    value: RtMetricValue::TimeSeries {
                        values,
                        n_values,
                        start_instant,
                        end_instant: Some(now),
                    },
                };
            }
            i = i + 1;
        }
    }

    /// To be called when an iteration of the realtime loop ends: reads the clock once and
    /// ends every time series at that moment (see `exit_at`).
    pub fn exit(&mut self)
        ensures
            final(self).spec_metrics().len() == old(self).spec_metrics().len(),
            exists|now: StdInstant| #[trigger] all_exited(old(self).spec_metrics(), final(self).spec_metrics(), now),
    {
        let now = instant_now();
        self.exit_at(now);
        assert(all_exited(old(self).spec_metrics(), self.spec_metrics(), now));
    }
}

impl<const COUNT: usize, C: MetricCollection<COUNT> + Clone> RtStore<COUNT, C> {
    /// A store with, at each position, the metric of that position of `metrics_shape`: its
    /// name and the default value of its kind. `None` when the machine offers no vDSO
    /// `clock_gettime` (reading the clock would then be a system call, which a realtime loop
    /// cannot afford).
    pub fn init(metrics_shape: [(&'static str, MetricKind); COUNT]) -> (r: Option<Self>)
        ensures
            r matches Some(s) ==> s.spec_metrics().len() == COUNT && forall|i: int|
                0 <= i < COUNT ==> {
                    &&& (#[trigger] s.spec_metrics()[i]).name == metrics_shape@[i].0
                    &&& s.spec_metrics()[i].value.spec_kind() == metrics_shape@[i].1
                    &&& s.spec_metrics()[i].value.is_default()
                },
    {
        if !vdso_clock_gettime_available() {
            return None;
        }
        let blank = RtMetric { name: "", value: RtMetricValue::Message("") };
        let mut metrics = [blank; COUNT];
        let mut i: usize = 0;
        while i < COUNT
            invariant
                i <= COUNT,
                metrics@.len() == COUNT,
                forall|j: int|
                    0 <= j < i ==> {
                        &&& (#[trigger] metrics@[j]).name == metrics_shape@[j].0
                        &&& metrics@[j].value.spec_kind() == metrics_shape@[j].1
                        &&& metrics@[j].value.is_default()
                    },
            decreases COUNT - i,
        {
            let (name, kind) = metrics_shape[i];
            metrics[i] = RtMetric::default_with_name(name, kind);
            i = i + 1;
        }
        Some(RtStore { phantom: PhantomData, metrics })
    }

    /// The writing and the reading end of a triple buffer whose buffers start as
    /// `RtStore::init(metrics_shape)`; `None` when `init` gives none.
    pub fn split(metrics_shape: [(&'static str, MetricKind); COUNT]) -> Option<
        (RtStoreWriter<COUNT, C>, RtStoreReader<COUNT, C>),
    > {
        match RtStore::<COUNT, C>::init(metrics_shape) {
            Some(store) => {
                let (producer, consumer) = new_triple_buffer(&store);
                Some((RtStoreWriter { store: producer, batch: store }, RtStoreReader { store: consumer }))
            },
            None => None,
        }
    }
}

/// The batch `new` and result `r` of setting the metric at `index` to `v` in the batch `old`:
/// with no position, `MetricNotFound`; when the metric there is of `v`'s kind, `Ok` and that
/// value replaced; otherwise a mismatch naming `kind_name`. On an error the batch is unchanged.
pub open spec fn value_set(
    old: Seq<RtMetric>,
    new: Seq<RtMetric>,
    index: Option<usize>,
    v: RtMetricValue,
    kind_name: Seq<char>,
    r: Result<(), StoreError>,
) -> bool {
    match index {
        None => r == Err::<(), StoreError>(StoreError::MetricNotFound) && new == old,
        Some(i) => if old[i as int].value.spec_kind() == v.spec_kind() {
            r is Ok && new == with_value(old, i as int, v)
        } else {
            is_mismatch(r, kind_name) && new == old
        },
    }
}

/// The batch `new` and result `r` of appending the sample `x` to the time series at `index`
/// in the batch `old`: with no position, `MetricNotFound`; with a full series, `FullTimeSeries`;
/// when the metric there is no time series, a mismatch; on these errors the batch is
/// unchanged. Otherwise `Ok`, that series with `x` appended and every other metric unchanged.
pub open spec fn value_pushed(
    old: Seq<RtMetric>,
    new: Seq<RtMetric>,
    index: Option<usize>,
    x: u32,
    r: Result<(), StoreError>,
) -> bool {
    match index {
        None => r == Err::<(), StoreError>(StoreError::MetricNotFound) && new == old,
        Some(i) => match old[i as int].value {
            RtMetricValue::TimeSeries { n_values, .. } => if n_values >= MAX_TS_VALUES {
                r == Err::<(), StoreError>(StoreError::FullTimeSeries) && new == old
            } else {
                &&& r is Ok
                &&& new.len() == old.len()
                &&& sample_pushed(old[i as int], new[i as int], x)
                &&& forall|j: int| 0 <= j < old.len() && j != i ==> new[j] == old[j]
            },
            _ => is_mismatch(r, "TimeSeries"@) && new == old,
        },
    }
}

/// The realtime thread's end of the store. The batch is written in a store of the writer's
/// own, which `exit` copies into the triple buffer and publishes.
#[verifier::reject_recursive_types(COUNT)]
#[verifier::reject_recursive_types(C)]
pub struct RtStoreWriter<const COUNT: usize, C: MetricCollection<COUNT>> {
    store: TripleInput<RtStore<COUNT, C>>,
    batch: RtStore<COUNT, C>,
}

impl<const COUNT: usize, C: MetricCollection<COUNT>> RtStoreWriter<COUNT, C> {
    /// The metrics of the batch being written, by position.
    pub closed spec fn spec_batch(&self) -> Seq<RtMetric> {
        self.batch.spec_metrics()
    }
}

impl<const COUNT: usize, C: MetricCollection<COUNT> + Clone> RtStoreWriter<COUNT, C> {
    /// Appends `value` to the time series named `metric_name`, in the batch being written (see
    /// `RtStore::push_value_at`).
    pub fn push_value_to_ts(&mut self, metric_name: &'static str, value: u32) -> (r: Result<(), StoreError>)
        ensures
            r is Ok || r == Err::<(), StoreError>(StoreError::MetricNotFound) || r == Err::<(), StoreError>(
                StoreError::FullTimeSeries,
            ) || is_mismatch(r, "TimeSeries"@),
            r == Err::<(), StoreError>(StoreError::MetricNotFound) <==> C::spec_index(metric_name@) is None,
            value_pushed(old(self).spec_batch(), final(self).spec_batch(), C::spec_index(metric_name@), value, r),
    {
        let index = C::get_index(metric_name);
        self.batch.push_value_at(index, value)
    }

    /// Sets the message named `metric_name` (see `RtStore::set_message_at`).
    pub fn set_message(&mut self, metric_name: &'static str, message: &'static str) -> (r: Result<(), StoreError>)
        ensures
            r is Ok || r == Err::<(), StoreError>(StoreError::MetricNotFound) || is_mismatch(r, "Message"@),
            r == Err::<(), StoreError>(StoreError::MetricNotFound) <==> C::spec_index(metric_name@) is None,
            value_set(
                old(self).spec_batch(),
                final(self).spec_batch(),
                C::spec_index(metric_name@),
                RtMetricValue::Message(message),
                "Message"@,
                r,
            ),
    {
        let index = C::get_index(metric_name);
        self.batch.set_message_at(index, message)
    }

    /// Sets the counter named `metric_name` (see `RtStore::set_counter_at`).
    pub fn set_counter(&mut self, metric_name: &'static str, value: u32) -> (r: Result<(), StoreError>)
        ensures
            r is Ok || r == Err::<(), StoreError>(StoreError::MetricNotFound) || is_mismatch(r, "Counter"@),
            r == Err::<(), StoreError>(StoreError::MetricNotFound) <==> C::spec_index(metric_name@) is None,
            value_set(
                old(self).spec_batch(),
                final(self).spec_batch(),
                C::spec_index(metric_name@),
                RtMetricValue::Counter(value),
                "Counter"@,
                r,
            ),
    {
        let index = C::get_index(metric_name);
        self.batch.set_counter_at(index, value)
    }

    /// Sets the gauge named `metric_name` (see `RtStore::set_gauge_at`).
    pub fn set_gauge(&mut self, metric_name: &'static str, value: u32) -> (r: Result<(), StoreError>)
        ensures
            r is Ok || r == Err::<(), StoreError>(StoreError::MetricNotFound) || is_mismatch(r, "Gauge"@),
            r == Err::<(), StoreError>(StoreError::MetricNotFound) <==> C::spec_index(metric_name@) is None,
            value_set(
                old(self).spec_batch(),
                final(self).spec_batch(),
                C::spec_index(metric_name@),
                RtMetricValue::Gauge(value),
                "Gauge"@,
                r,
            ),
    {
        let index = C::get_index(metric_name);
        self.batch.set_gauge_at(index, value)
    }

    /// Sets the instant named `metric_name` (see `RtStore::set_instant_at`).
    pub fn set_instant(&mut self, metric_name: &'static str, instant: StdInstant) -> (r: Result<(), StoreError>)
        ensures
            r is Ok || r == Err::<(), StoreError>(StoreError::MetricNotFound) || is_mismatch(r, "Instant"@),
            r == Err::<(), StoreError>(StoreError::MetricNotFound) <==> C::spec_index(metric_name@) is None,
            value_set(
                old(self).spec_batch(),
                final(self).spec_batch(),
                C::spec_index(metric_name@),
                RtMetricValue::Instant(Some(instant)),
                "Instant"@,
                r,
            ),
    {
        let index = C::get_index(metric_name);
        self.batch.set_instant_at(index, instant)
    }

    /// To be called when an iteration begins (see `RtStore::enter`).
    pub fn enter(&mut self)
        ensures
            final(self).spec_batch().len() == old(self).spec_batch().len(),
            exists|now: StdInstant| #[trigger] all_entered(old(self).spec_batch(), final(self).spec_batch(), now),
    {
        self.batch.enter();
    }

    /// To be called when an iteration ends (see `RtStore::exit`); then copies the batch into
    /// the triple buffer and publishes it to the reader.
    pub fn exit(&mut self)
        ensures
            final(self).spec_batch().len() == old(self).spec_batch().len(),
            exists|now: StdInstant| #[trigger] all_exited(old(self).spec_batch(), final(self).spec_batch(), now),
    {
        self.batch.exit();
        let buffer = input_buffer_mut(&mut self.store);
        *buffer = self.batch.clone();
        let _has_buffer_been_overwritten = publish_input(&mut self.store);
    }
}

/// The monitoring thread's end of the store.
#[verifier::reject_recursive_types(COUNT)]
#[verifier::reject_recursive_types(C)]
pub struct RtStoreReader<const COUNT: usize, C: MetricCollection<COUNT>> {
    store: TripleOutput<RtStore<COUNT, C>>,
}

impl<const COUNT: usize, C: MetricCollection<COUNT>> RtStoreReader<COUNT, C> {
    /// A snapshot of the latest published batch (see `StoreSnapshot::from`), or `None` when
    /// that batch holds a time series without both its instants or an unset instant.
    pub fn read_snapshot(&mut self) -> (r: Option<StoreSnapshot>)
        ensures
            r matches Some(snap) ==> exists|ms: Seq<RtMetric>|
                #![trigger snapshot_of(ms)]
                {
                    &&& ms.len() == COUNT
                    &&& forall|i: int| 0 <= i < COUNT ==> convertible(#[trigger] ms[i].value)
                    &&& snap@ == snapshot_of(ms)
                },
    {
        let rt_store = read_output(&mut self.store);
        if rt_store.all_convertible() {
            let snap = StoreSnapshot::from(rt_store);
            proof {
                let ms = rt_store.spec_metrics();
                assert(ms.len() == COUNT);
                assert(snap@ == snapshot_of(ms));
            }
            Some(snap)
        } else {
            None
        }
    }
}

/// A metric of a snapshot: its name and its heap value.
#[derive(Debug)]
pub struct Metric {
    pub name: String,
    pub value: MetricValue,
}

/// The mathematical value of a `Metric`.
pub ghost struct MetricView {
    pub name: Seq<char>,
    pub value: MetricValueView,
}

impl View for Metric {
    type V = MetricView;

    open spec fn view(&self) -> MetricView {
        MetricView { name: self.name@, value: self.value@ }
    }
}

pub open spec fn metric_views(metrics: Seq<Metric>) -> Seq<MetricView> {
    metrics.map_values(|m: Metric| m@)
}

/// No two metrics share a name.
pub open spec fn names_distinct(metrics: Seq<MetricView>) -> bool {
    forall|i: int, j: int|
        0 <= i < j < metrics.len() ==> (#[trigger] metrics[i]).name != (#[trigger] metrics[j]).name
}

pub open spec fn has_name(metrics: Seq<MetricView>, name: Seq<char>) -> bool {
    exists|i: int| 0 <= i < metrics.len() && (#[trigger] metrics[i]).name == name
}

/// The position of the metric named `name` (meaningful when there is one).
#[verifier::opaque]
pub open spec fn name_index(metrics: Seq<MetricView>, name: Seq<char>) -> int {
    choose|i: int| 0 <= i < metrics.len() && (#[trigger] metrics[i]).name == name
}

/// The snapshot of a batch: one metric per name, in the order the names first occur, each
/// with the heap value of the last metric of that name.
#[verifier::opaque]
pub open spec fn snapshot_of(ms: Seq<RtMetric>) -> Seq<MetricView>
    decreases ms.len(),
{
    if ms.len() == 0 {
        Seq::empty()
    } else {
        let prev = snapshot_of(ms.drop_last());
        let m = MetricView { name: ms.last().name@, value: converted(ms.last().value) };
        if has_name(prev, m.name) {
            prev.update(name_index(prev, m.name), m)
        } else {
            prev.push(m)
        }
    }
}

/// The metrics of one batch on the heap, for the monitoring thread.
#[derive(Debug)]
pub struct StoreSnapshot {
    metrics: Vec<Metric>,
}

impl View for StoreSnapshot {
    type V = Seq<MetricView>;

    closed spec fn view(&self) -> Seq<MetricView> {
        metric_views(self.metrics@)
    }
}

fn find_name(metrics: &Vec<Metric>, name: &String) -> (r: Option<usize>)
    requires
        names_distinct(metric_views(metrics@)),
    ensures
        match r {
            Some(i) => {
                &&& has_name(metric_views(metrics@), name@)
                &&& i == name_index(metric_views(metrics@), name@)
                &&& i < metrics@.len()
                &&& metrics@[i as int].name@ == name@
            },
            None => !has_name(metric_views(metrics@), name@),
        },
{
    let ghost v = metric_views(metrics@);
    let mut i: usize = 0;
    while i < metrics.len()
        invariant
            v == metric_views(metrics@),
            names_distinct(v),
            i <= v.len(),
            forall|j: int| 0 <= j < i ==> v[j].name != name@,
        decreases v.len() - i,
    {
        if metrics[i].name == *name {
            proof {
                reveal(name_index);
                assert(v[i as int].name == name@);
                let c = name_index(v, name@);
                if c != i {
                    if c < i {
                        assert(v[c].name != v[i as int].name);
                    } else {
                        assert(v[i as int].name != v[c].name);
                    }
                }
            }
            return Some(i);
        }
        i = i + 1;
    }
    None
}

fn copy_samples(values: &Vec<u32>) -> (r: Vec<u32>)
    ensures
        r@ == values@,
{
    let mut r: Vec<u32> = Vec::new();
    let mut i: usize = 0;
    while i < values.len()
        invariant
            i <= values@.len(),
            r@ == values@.take(i as int),
        decreases values@.len() - i,
    {
        r.push(values[i]);
        proof {
            assert(r@ =~= values@.take(i + 1));
        }
        i = i + 1;
    }
    proof {
        assert(values@.take(values@.len() as int) =~= values@);
    }
    r
}

impl MetricValue {
    /// An identical copy.
    pub fn copy(&self) -> (r: Self)
        ensures
            r@ == self@,
    {
        match self {
            MetricValue::Message(m) => MetricValue::Message(m.clone()),
            MetricValue::Counter(c) => MetricValue::Counter(*c),
            MetricValue::Gauge(g) => MetricValue::Gauge(*g),
            MetricValue::TimeSeries { values, start_instant, end_instant } => MetricValue::TimeSeries {
                values: copy_samples(values),
                start_instant: *start_instant,
                end_instant: *end_instant,
            },
            MetricValue::Instant(t) => MetricValue::Instant(*t),
        }
    }
}

impl Metric {
    /// An identical copy.
    pub fn copy(&self) -> (r: Self)
        ensures
            r@ == self@,
    {
        Metric { name: self.name.clone(), value: self.value.copy() }
    }
}

/// The metrics of `metrics` whose flag in `keep` is set, in order.
pub open spec fn kept(metrics: Seq<MetricView>, keep: Seq<bool>) -> Seq<MetricView>
    decreases metrics.len(),
{
    if metrics.len() == 0 || keep.len() == 0 {
        Seq::empty()
    } else if keep.last() {
        kept(metrics.drop_last(), keep.drop_last()).push(metrics.last())
    } else {
        kept(metrics.drop_last(), keep.drop_last())
    }
}

impl StoreSnapshot {
    /// No two metrics share a name.
    #[verifier::type_invariant]
    closed spec fn wf(&self) -> bool {
        names_distinct(metric_views(self.metrics@))
    }

    /// The snapshot of a batch whose metrics are all convertible (see `snapshot_of`).
    pub fn from<const COUNT: usize, C>(value: &RtStore<COUNT, C>) -> (r: StoreSnapshot)
        requires
            forall|i: int|
                0 <= i < value.spec_metrics().len() ==> convertible(#[trigger] value.spec_metrics()[i].value),
        ensures
            r@ == snapshot_of(value.spec_metrics()),
    {
        let ghost ms = value.spec_metrics();
        let mut metrics: Vec<Metric> = Vec::new();
        proof {
            reveal(snapshot_of);
            assert(metric_views(metrics@) =~= snapshot_of(ms.take(0)));
        }
        let mut i: usize = 0;
        while i < COUNT
            invariant
                ms == value.spec_metrics(),
                ms.len() == COUNT,
                i <= COUNT,
                forall|j: int| 0 <= j < ms.len() ==> convertible(#[trigger] ms[j].value),
                names_distinct(metric_views(metrics@)),
                metric_views(metrics@) == snapshot_of(ms.take(i as int)),
            decreases COUNT - i,
        {
            let rt = value.metrics[i];
            let name = rt.name.to_owned();
            let metric = Metric { name: name.clone(), value: MetricValue::from(&rt.value) };
            let ghost prev = metric_views(metrics@);
            proof {
                assert(ms.take(i + 1).drop_last() =~= ms.take(i as int));
                assert(ms.take(i + 1).last() == ms[i as int]);
                lemma_snapshot_step(ms.take(i + 1));
            }
            match find_name(&metrics, &name) {
                Some(k) => {
                    metrics.set(k, metric);
                    proof {
                        assert(metric_views(metrics@) =~= prev.update(k as int, metric@));
                    }
                },
                None => {
                    metrics.push(metric);
                    proof {
                        assert(metric_views(metrics@) =~= prev.push(metric@));
                    }
                },
            }
            proof {
                lemma_snapshot_distinct(ms.take(i + 1));
            }
            i = i + 1;
        }
        proof {
            assert(ms.take(COUNT as int) =~= ms);
        }
        StoreSnapshot { metrics }
    }

    /// A copy of the metric named `name`, or `MetricNotFound` when the snapshot has none.
    pub fn query_by_name(&self, name: &str) -> (r: Result<Metric, StoreError>)
        ensures
            match r {
                Ok(m) => has_name(self@, name@) && m@ == self@[name_index(self@, name@)],
                Err(e) => !has_name(self@, name@) && e == StoreError::MetricNotFound,
            },
    {
        proof {
            use_type_invariant(self);
        }
        let key = name.to_owned();
        match find_name(&self.metrics, &key) {
            Some(i) => Ok(self.metrics[i].copy()),
            None => Err(StoreError::MetricNotFound),
        }
    }

    /// Copies of the metrics whose flag in `keep` is set, in order.
    pub fn select(&self, keep: &Vec<bool>) -> (r: Vec<Metric>)
        requires
            keep@.len() == self@.len(),
        ensures
            metric_views(r@) == kept(self@, keep@),
    {
        let mut r: Vec<Metric> = Vec::new();
        let mut i: usize = 0;
        while i < self.metrics.len()
            invariant
                keep@.len() == self@.len(),
                i <= self@.len(),
                metric_views(r@) == kept(self@.take(i as int), keep@.take(i as int)),
            decreases self@.len() - i,
        {
            proof {
                assert(self@.take(i + 1).drop_last() =~= self@.take(i as int));
                assert(keep@.take(i + 1).drop_last() =~= keep@.take(i as int));
            }
            if keep[i] {
                let m = self.metrics[i].copy();
                r.push(m);
                proof {
                    assert(metric_views(r@) =~= kept(self@.take(i as int), keep@.take(i as int)).push(m@));
                }
            }
            i = i + 1;
        }
        proof {
            assert(self@.take(self@.len() as int) =~= self@);
            assert(keep@.take(self@.len() as int) =~= keep@);
        }
        r
    }

    /// Copies of the metrics that `filter` matches: the filter is asked once per metric, in
    /// order, and the copies come in the same order. It never fails.
    pub fn query_with_filter<F: MetricFilter>(&self, filter: F) -> (r: Result<Vec<Metric>, StoreError>)
        ensures
            r matches Ok(v) && metric_views(v@) == kept(self@, matches_of(&filter, self@)),
    {
        let mut keep: Vec<bool> = Vec::new();
        let mut i: usize = 0;
        while i < self.metrics.len()
            invariant
                i <= self.metrics@.len(),
                self@ == metric_views(self.metrics@),
                keep@ == matches_of(&filter, self@).take(i as int),
            decreases self.metrics@.len() - i,
        {
            let b = filter.matches(&self.metrics[i]);
            keep.push(b);
            proof {
                assert(self.metrics@[i as int]@ == self@[i as int]);
                assert(keep@ =~= matches_of(&filter, self@).take(i + 1));
            }
            i = i + 1;
        }
        proof {
            assert(keep@ =~= matches_of(&filter, self@));
        }
        let v = self.select(&keep);
        Ok(v)
    }
}

/// For each metric of `metrics`, in order, whether `filter` matches it.
pub open spec fn matches_of<F: MetricFilter>(filter: &F, metrics: Seq<MetricView>) -> Seq<bool> {
    Seq::new(metrics.len(), |i: int| filter.spec_matches(metrics[i]))
}

/// A test on snapshot metrics, for `StoreSnapshot::query_with_filter`.
pub trait MetricFilter {
    /// Whether the filter matches a metric: a function of the filter and the metric.
    ///
    /// An implementation defines this to say what its exec method computes; where it does not,
    /// the contracts that speak of it say nothing of that implementation.
    open spec fn spec_matches(&self, m: MetricView) -> bool {
        vstd::pervasive::arbitrary()
    }

    fn matches(&self, metric: &Metric) -> (b: bool)
        ensures
            b == self.spec_matches(metric@),
    ;
}

/// Matches the metrics named `name`.
pub struct NameFilter {
    pub name: String,
}

impl MetricFilter for NameFilter {
    /// The metric has the filter's name.
    open spec fn spec_matches(&self, m: MetricView) -> bool {
        m.name == self.name@
    }

    fn matches(&self, metric: &Metric) -> (b: bool)
        ensures
            b == (metric.name@ == self.name@),
    {
        metric.name == self.name
    }
}

/// The position of the last metric of `ms` named `name` (meaningful when there is one).
#[verifier::opaque]
pub open spec fn last_index_named(ms: Seq<RtMetric>, name: Seq<char>) -> int {
    choose|i: int|
        0 <= i < ms.len() && (#[trigger] ms[i]).name@ == name && forall|j: int|
            i < j < ms.len() ==> (#[trigger] ms[j]).name@ != name
}

/// A snapshot holds one metric per name of the batch and no other: no two share a name,
/// every name of the batch is there, and every name there is one of the batch.
pub proof fn law_snapshot_one_metric_per_name(ms: Seq<RtMetric>)
    ensures
        names_distinct(snapshot_of(ms)),
        forall|i: int| 0 <= i < ms.len() ==> has_name(snapshot_of(ms), (#[trigger] ms[i]).name@),
        forall|j: int|
            0 <= j < snapshot_of(ms).len() ==> exists|i: int|
                0 <= i < ms.len() && (#[trigger] ms[i]).name@ == (#[trigger] snapshot_of(ms)[j]).name,
    decreases ms.len(),
{
    reveal(snapshot_of);
    if ms.len() > 0 {
        let pm = ms.drop_last();
        law_snapshot_one_metric_per_name(pm);
        let prev = snapshot_of(pm);
        let last = ms.last();
        let m = MetricView { name: last.name@, value: converted(last.value) };
        let cur = snapshot_of(ms);
        if has_name(prev, m.name) {
            let k = name_index(prev, m.name);
            lemma_name_index(prev, m.name);
            assert(cur == prev.update(k, m));
            assert forall|i: int| 0 <= i < ms.len() implies has_name(cur, (#[trigger] ms[i]).name@) by {
                if i < ms.len() - 1 {
                    assert(pm[i] == ms[i]);
                    let w = choose|w: int| 0 <= w < prev.len() && (#[trigger] prev[w]).name == pm[i].name@;
                    assert(cur[w].name == ms[i].name@);
                } else {
                    assert(cur[k].name == ms[i].name@);
                }
            }
            assert forall|j: int| 0 <= j < cur.len() implies exists|i: int|
                0 <= i < ms.len() && (#[trigger] ms[i]).name@ == (#[trigger] cur[j]).name by {
                if j == k {
                    assert(ms[ms.len() - 1].name@ == cur[j].name);
                } else {
                    assert(cur[j] == prev[j]);
                    let i = choose|i: int| 0 <= i < pm.len() && (#[trigger] pm[i]).name@ == prev[j].name;
                    assert(ms[i] == pm[i]);
                }
            }
        } else {
            assert(cur == prev.push(m));
            assert forall|i: int| 0 <= i < ms.len() implies has_name(cur, (#[trigger] ms[i]).name@) by {
                if i < ms.len() - 1 {
                    assert(pm[i] == ms[i]);
                    let w = choose|w: int| 0 <= w < prev.len() && (#[trigger] prev[w]).name == pm[i].name@;
                    assert(cur[w].name == ms[i].name@);
                } else {
                    assert(cur[prev.len() as int].name == ms[i].name@);
                }
            }
            assert forall|j: int| 0 <= j < cur.len() implies exists|i: int|
                0 <= i < ms.len() && (#[trigger] ms[i]).name@ == (#[trigger] cur[j]).name by {
                if j == prev.len() {
                    assert(ms[ms.len() - 1].name@ == cur[j].name);
                } else {
                    assert(cur[j] == prev[j]);
                    let i = choose|i: int| 0 <= i < pm.len() && (#[trigger] pm[i]).name@ == prev[j].name;
                    assert(ms[i] == pm[i]);
                }
            }
        }
    }
}

proof fn lemma_snapshot_distinct(ms: Seq<RtMetric>)
    ensures
        names_distinct(snapshot_of(ms)),
{
    law_snapshot_one_metric_per_name(ms);
}

proof fn lemma_name_index_at(s: Seq<MetricView>, k: int, name: Seq<char>)
    requires
        names_distinct(s),
        0 <= k < s.len(),
        s[k].name == name,
    ensures
        has_name(s, name),
        name_index(s, name) == k,
{
    reveal(name_index);
    assert(has_name(s, name));
    let c = name_index(s, name);
    if c != k {
        if c < k {
            assert(s[c].name != s[k].name);
        } else {
            assert(s[k].name != s[c].name);
        }
    }
}

proof fn lemma_last_index_at(ms: Seq<RtMetric>, l: int, name: Seq<char>)
    requires
        0 <= l < ms.len(),
        ms[l].name@ == name,
        forall|j: int| l < j < ms.len() ==> (#[trigger] ms[j]).name@ != name,
    ensures
        last_index_named(ms, name) == l,
{
    reveal(last_index_named);
    let c = last_index_named(ms, name);
    assert(0 <= c < ms.len() && ms[c].name@ == name && forall|j: int|
        c < j < ms.len() ==> (#[trigger] ms[j]).name@ != name);
    if c < l {
        assert(ms[l].name@ != name);
    } else if l < c {
        assert(ms[c].name@ != name);
    }
}

proof fn lemma_name_index(s: Seq<MetricView>, name: Seq<char>)
    requires
        has_name(s, name),
    ensures
        0 <= name_index(s, name) < s.len(),
        s[name_index(s, name)].name == name,
{
    reveal(name_index);
}

/// How `snapshot_of` extends the snapshot of all but the last metric.
proof fn lemma_snapshot_step(ms: Seq<RtMetric>)
    requires
        ms.len() > 0,
    ensures
        ({
            let prev = snapshot_of(ms.drop_last());
            let m = MetricView { name: ms.last().name@, value: converted(ms.last().value) };
            snapshot_of(ms) == if has_name(prev, m.name) {
                prev.update(name_index(prev, m.name), m)
            } else {
                prev.push(m)
            }
        }),
{
    reveal(snapshot_of);
}

proof fn lemma_keeps_last_when_last(ms: Seq<RtMetric>, name: Seq<char>)
    requires
        ms.len() > 0,
        ms.last().name@ == name,
    ensures
        has_name(snapshot_of(ms), name),
        last_index_named(ms, name) == ms.len() - 1,
        snapshot_of(ms)[name_index(snapshot_of(ms), name)].value == converted(ms.last().value),
{
    let prev = snapshot_of(ms.drop_last());
    let cur = snapshot_of(ms);
    let m = MetricView { name: ms.last().name@, value: converted(ms.last().value) };
    lemma_snapshot_step(ms);
    lemma_snapshot_distinct(ms);
    lemma_last_index_at(ms, ms.len() - 1, name);
    if has_name(prev, name) {
        let k = name_index(prev, name);
        lemma_name_index(prev, name);
        assert(cur[k] == m);
        lemma_name_index_at(cur, k, name);
    } else {
        assert(cur[prev.len() as int] == m);
        lemma_name_index_at(cur, prev.len() as int, name);
    }
}

proof fn lemma_keeps_earlier(ms: Seq<RtMetric>, name: Seq<char>, lp: int, kp: int)
    requires
        ms.len() > 0,
        ms.last().name@ != name,
        0 <= lp < ms.len() - 1,
        ms[lp].name@ == name,
        forall|j: int| lp < j < ms.len() - 1 ==> (#[trigger] ms[j]).name@ != name,
        0 <= kp < snapshot_of(ms.drop_last()).len(),
        snapshot_of(ms.drop_last())[kp].name == name,
    ensures
        last_index_named(ms, name) == lp,
        has_name(snapshot_of(ms), name),
        name_index(snapshot_of(ms), name) == kp,
        snapshot_of(ms)[kp] == snapshot_of(ms.drop_last())[kp],
{
    let prev = snapshot_of(ms.drop_last());
    let cur = snapshot_of(ms);
    let m = MetricView { name: ms.last().name@, value: converted(ms.last().value) };
    lemma_snapshot_step(ms);
    lemma_snapshot_distinct(ms);
    lemma_last_index_at(ms, lp, name);
    if has_name(prev, m.name) {
        let k = name_index(prev, m.name);
        lemma_name_index(prev, m.name);
        assert(prev[k].name == m.name);
        assert(cur[kp] == prev[kp]);
    } else {
        assert(cur[kp] == prev[kp]);
    }
    lemma_name_index_at(cur, kp, name);
}

/// In a snapshot, the metric of each name holds the heap value of the last metric of the
/// batch with that name: a later write under a name hides the earlier ones.
pub proof fn law_snapshot_keeps_last_value(ms: Seq<RtMetric>, name: Seq<char>)
    requires
        exists|i: int| 0 <= i < ms.len() && (#[trigger] ms[i]).name@ == name,
    ensures
        has_name(snapshot_of(ms), name),
        0 <= last_index_named(ms, name) < ms.len(),
        ms[last_index_named(ms, name)].name@ == name,
        forall|j: int| last_index_named(ms, name) < j < ms.len() ==> (#[trigger] ms[j]).name@ != name,
        snapshot_of(ms)[name_index(snapshot_of(ms), name)].value == converted(
            ms[last_index_named(ms, name)].value,
        ),
    decreases ms.len(),
{
    if ms.last().name@ == name {
        lemma_keeps_last_when_last(ms, name);
    } else {
        let pm = ms.drop_last();
        let w = choose|i: int| 0 <= i < ms.len() && (#[trigger] ms[i]).name@ == name;
        assert(pm[w].name@ == name);
        law_snapshot_keeps_last_value(pm, name);
        let lp = last_index_named(pm, name);
        let kp = name_index(snapshot_of(pm), name);
        lemma_name_index(snapshot_of(pm), name);
        assert forall|j: int| lp < j < ms.len() - 1 implies (#[trigger] ms[j]).name@ != name by {
            assert(pm[j] == ms[j]);
            assert(pm[j].name@ != name);
        }
        assert(pm[lp] == ms[lp]);
        lemma_keeps_earlier(ms, name, lp, kp);
    }
}

/// After `enter` at one moment and then `exit` at another, every time series is empty and
/// runs from the first moment to the second, so it can be read; every other metric holds the
/// default of its kind.
pub proof fn law_enter_then_exit_completes_series(
    a: RtMetric,
    b: RtMetric,
    c: RtMetric,
    start: StdInstant,
    end: StdInstant,
)
    requires
        entered(a, b, start),
        exited(b, c, end),
    ensures
        c.value matches RtMetricValue::TimeSeries { start_instant, end_instant, .. } ==> start_instant
            == Some(start) && end_instant == Some(end),
        c.name == a.name,
        c.value.spec_kind() == a.value.spec_kind(),
        c.value is TimeSeries ==> convertible(c.value),
        c.value is TimeSeries ==> (converted(c.value) matches MetricValueView::TimeSeries {
            values,
            ..
        } && values == Seq::<u32>::empty()),
        !(c.value is TimeSeries) ==> c.value.is_default(),
{
    if let RtMetricValue::TimeSeries { values, n_values, .. } = c.value {
        assert(values@.take(n_values as int) =~= Seq::<u32>::empty());
    }
}

/// Appending a sample to a time series with room adds exactly that one sample: a snapshot of
/// the series shows the samples it showed before followed by the new one, with the same name
/// and instants, and every other metric of the batch is unchanged.
pub proof fn law_sample_appended_once(old: Seq<RtMetric>, new: Seq<RtMetric>, i: usize, x: u32)
    requires
        value_pushed(old, new, Some(i), x, Ok(())),
        i < old.len(),
    ensures
        new.len() == old.len(),
        new[i as int].name == old[i as int].name,
        converted(old[i as int].value) matches MetricValueView::TimeSeries {
            values: before,
            start_instant: s0,
            end_instant: e0,
        } && converted(new[i as int].value) matches MetricValueView::TimeSeries {
            values: after,
            start_instant: s1,
            end_instant: e1,
        } && after == before.push(x) && s1 == s0 && e1 == e0,
        forall|j: int| 0 <= j < old.len() && j != i ==> new[j] == old[j],
{
    if let RtMetricValue::TimeSeries { values: v0, n_values: n0, .. } = old[i as int].value {
        if let RtMetricValue::TimeSeries { values, n_values, .. } = new[i as int].value {
            assert(values@.take(n_values as int) =~= v0@.take(n0 as int).push(x));
        }
    }
}

} // verus!
