//! A shared store of named metrics: messages, counters, gauges, time series and timestamps,
//! each with a set of tags, queried by name or through a filter.
//!
//! Floating-point values are kept as the bit patterns of their `f64` (`f64::to_bits`); the
//! store only stores, copies and compares them.

use chrono::Utc;
use std::sync::{Arc, Mutex, MutexGuard};
use vstd::prelude::*;

verus! {

#[verifier::external_type_specification]
#[verifier::external_body]
#[verifier::reject_recursive_types(T)]
pub struct ExMutex<T: ?Sized>(Mutex<T>);

#[verifier::external_type_specification]
#[verifier::external_body]
#[verifier::reject_recursive_types(T)]
pub struct ExMutexGuard<'a, T: ?Sized + 'a>(MutexGuard<'a, T>);

/// A point in time in UTC: whole seconds since the Unix epoch and the nanoseconds past them.
#[derive(Debug, Clone, Copy, PartialEq, Eq)]
pub struct UtcTimestamp {
    pub secs: i64,
    pub nanos: u32,
}

/// `chrono::Utc::now()`, as seconds since the epoch (`timestamp`) and nanoseconds past them
/// (`timestamp_subsec_nanos`). Which time it is is not stated. chrono panics here only when
/// the system clock reads a time before 1970, a fault of the machine rather than of any input.
#[verifier::external_body]
fn utc_now() -> UtcTimestamp {
    let now = Utc::now();
    UtcTimestamp { secs: now.timestamp(), nanos: now.timestamp_subsec_nanos() }
}

/// The value of a metric.
#[derive(Debug, Clone)]
pub enum MetricValue {
    /// A message is a string
    Message(String),
    /// A counter is a cumulative metric that represents a single numerical value that only ever
    /// goes up (the bits of an `f64`)
    Counter(u64),
    /// A gauge is a single value that can go up and down (the bits of an `f64`)
    Gauge(u64),
    /// A single span of values (bits of `f64`s) with a start timestamp (- until present)
    TimeSeries { values: Vec<u64>, start_ts: UtcTimestamp },
    Timestamp(UtcTimestamp),
}

/// A named, tagged metric. The tags are a set: their order and repetitions do not matter.
#[derive(Debug)]
pub struct Metric {
    pub name: String,
    pub tags: Vec<String>,
    pub value: MetricValue,
}

#[derive(Debug, Clone)]
pub enum StoreError {
    /// The store's lock is poisoned.
    LockError,
    /// A metric with the same name already exists.
    MetricAlreadyExists,
    MetricNotFound,
    /// The metric has another kind of value; `found` is a copy of the value it has.
    MetricTypeMismatch { expected: String, found: MetricValue },
}

/// The texts of `tags`, in order.
pub open spec fn tag_texts(tags: Seq<String>) -> Seq<Seq<char>> {
    tags.map_values(|t: String| t@)
}

/// The set of texts of `tags`.
pub open spec fn tag_set(tags: Seq<String>) -> Set<Seq<char>> {
    tag_texts(tags).to_set()
}

/// The mathematical value of a metric value.
pub ghost enum MetricValueView {
    Message(Seq<char>),
    Counter(u64),
    Gauge(u64),
    TimeSeries { values: Seq<u64>, start_ts: UtcTimestamp },
    Timestamp(UtcTimestamp),
}

impl View for MetricValue {
    type V = MetricValueView;

    open spec fn view(&self) -> MetricValueView {
        match self {
            MetricValue::Message(m) => MetricValueView::Message(m@),
            MetricValue::Counter(c) => MetricValueView::Counter(*c),
            MetricValue::Gauge(g) => MetricValueView::Gauge(*g),
            MetricValue::TimeSeries { values, start_ts } => MetricValueView::TimeSeries {
                values: values@,
                start_ts: *start_ts,
            },
            MetricValue::Timestamp(t) => MetricValueView::Timestamp(*t),
        }
    }
}

/// The mathematical value of a metric.
pub ghost struct MetricView {
    pub name: Seq<char>,
    pub tags: Set<Seq<char>>,
    pub value: MetricValueView,
}

impl View for Metric {
    type V = MetricView;

    open spec fn view(&self) -> MetricView {
        MetricView { name: self.name@, tags: tag_set(self.tags@), value: self.value@ }
    }
}

/// The mathematical values of `metrics`, in order.
pub open spec fn metric_views(metrics: Seq<Metric>) -> Seq<MetricView> {
    metrics.map_values(|m: Metric| m@)
}

/// No two metrics share a name.
pub open spec fn names_distinct(metrics: Seq<MetricView>) -> bool {
    forall|i: int, j: int| 0 <= i < j < metrics.len() ==> metrics[i].name != metrics[j].name
}

pub open spec fn has_metric(metrics: Seq<MetricView>, name: Seq<char>) -> bool {
    exists|i: int| 0 <= i < metrics.len() && metrics[i].name == name
}

pub open spec fn metric_index(metrics: Seq<MetricView>, name: Seq<char>) -> int {
    choose|i: int| 0 <= i < metrics.len() && metrics[i].name == name
}

fn copy_tags(tags: &Vec<String>) -> (r: Vec<String>)
    ensures
        r@ == tags@,
{
    let mut r: Vec<String> = Vec::new();
    let mut i: usize = 0;
    while i < tags.len()
        invariant
            i <= tags@.len(),
            r@ == tags@.take(i as int),
        decreases tags@.len() - i,
    {
        r.push(tags[i].clone());
        proof {
            assert(r@ =~= tags@.take(i + 1));
        }
        i = i + 1;
    }
    proof {
        assert(tags@.take(tags@.len() as int) =~= tags@);
    }
    r
}

fn copy_values(values: &Vec<u64>) -> (r: Vec<u64>)
    ensures
        r@ == values@,
{
    let mut r: Vec<u64> = Vec::new();
    let mut i: usize = 0;
    while i < values.len()
        invariant
            i <= values@.len(),
            r@ == values@.take(i as int),
        decreases values@.len() - i,
    {
        r.push(values[i]);
        proof {
            assert(r@ =~= values@.take(i + 1));
        }
        i = i + 1;
    }
    proof {
        assert(values@.take(values@.len() as int) =~= values@);
    }
    r
}

impl MetricValue {
    /// An identical copy.
    pub fn copy(&self) -> (r: Self)
        ensures
            r@ == self@,
    {
        match self {
            MetricValue::Message(m) => MetricValue::Message(m.clone()),
            MetricValue::Counter(c) => MetricValue::Counter(*c),
            MetricValue::Gauge(g) => MetricValue::Gauge(*g),
            MetricValue::TimeSeries { values, start_ts } => MetricValue::TimeSeries {
                values: copy_values(values),
                start_ts: *start_ts,
            },
            MetricValue::Timestamp(t) => MetricValue::Timestamp(*t),
        }
    }
}

impl Metric {
    /// An identical copy, tags in the same order.
    pub fn copy(&self) -> (r: Self)
        ensures
            r@ == self@,
            r.tags@ == self.tags@,
    {
        Metric { name: self.name.clone(), tags: copy_tags(&self.tags), value: self.value.copy() }
    }
}

/// No tag of the metric appears twice.
pub open spec fn tags_unique(m: Metric) -> bool {
    tag_texts(m.tags@).no_duplicates()
}

/// No metric of `metrics` has a tag twice.
pub open spec fn all_tags_unique(metrics: Seq<Metric>) -> bool {
    forall|i: int| 0 <= i < metrics.len() ==> #[trigger] tags_unique(metrics[i])
}

/// `tags` with every repeat of a tag left out; the first of each stays, in order.
fn unique_tags(tags: Vec<String>) -> (r: Vec<String>)
    ensures
        tag_set(r@) == tag_set(tags@),
        tag_texts(r@).no_duplicates(),
{
    let mut r: Vec<String> = Vec::new();
    let mut i: usize = 0;
    while i < tags.len()
        invariant
            i <= tags@.len(),
            tag_set(r@) == tag_set(tags@.take(i as int)),
            tag_texts(r@).no_duplicates(),
        decreases tags@.len() - i,
    {
        let mut seen = false;
        let mut j: usize = 0;
        while j < r.len()
            invariant
                i < tags@.len(),
                j <= r@.len(),
                seen <==> exists|k: int| 0 <= k < j && r@[k]@ == tags@[i as int]@,
            decreases r@.len() - j,
        {
            if r[j] == tags[i] {
                seen = true;
            }
            j = j + 1;
        }
        let ghost r0 = r@;
        proof {
            assert(tags@.take(i + 1) =~= tags@.take(i as int).push(tags@[i as int]));
            assert(tag_texts(tags@.take(i + 1)) =~= tag_texts(tags@.take(i as int)).push(
                tags@[i as int]@,
            ));
            tag_texts(tags@.take(i as int)).lemma_push_to_set_commute(tags@[i as int]@);
        }
        if !seen {
            r.push(tags[i].clone());
            proof {
                assert(tag_texts(r@) =~= tag_texts(r0).push(tags@[i as int]@));
                tag_texts(r0).lemma_push_to_set_commute(tags@[i as int]@);
                assert forall|a: int, b: int| 0 <= a < b < tag_texts(r@).len() implies tag_texts(
                    r@,
                )[a] != tag_texts(r@)[b] by {
                    if b == r0.len() {
                        assert(r0[a]@ == tag_texts(r0)[a]);
                    }
                }
            }
        } else {
            proof {
                let k = choose|k: int| 0 <= k < r0.len() && r0[k]@ == tags@[i as int]@;
                assert(tag_texts(r0)[k] == tags@[i as int]@);
                assert(tag_set(r0).insert(tags@[i as int]@) =~= tag_set(r0));
            }
        }
        i = i + 1;
    }
    proof {
        assert(tags@.take(tags@.len() as int) =~= tags@);
    }
    r
}

/// `v` after a tick at `now`: a time series emptied and restarted at `now`, any other value
/// kept.
pub open spec fn ticked_value(v: MetricValueView, now: UtcTimestamp) -> MetricValueView {
    match v {
        MetricValueView::TimeSeries { .. } => MetricValueView::TimeSeries {
            values: Seq::empty(),
            start_ts: now,
        },
        _ => v,
    }
}

/// `new` is `old` after a tick at `now`: the same metrics with the same names and tags, each
/// value as `ticked_value` leaves it.
pub open spec fn ticked(old: Seq<MetricView>, new: Seq<MetricView>, now: UtcTimestamp) -> bool {
    &&& new.len() == old.len()
    &&& forall|i: int|
        0 <= i < old.len() ==> {
            &&& #[trigger] new[i].name == old[i].name
            &&& new[i].tags == old[i].tags
            &&& new[i].value == ticked_value(old[i].value, now)
        }
}

/// `metrics` with the values of `values` appended to the time series at position `i`.
pub open spec fn with_sample(metrics: Seq<MetricView>, i: int, value: u64) -> Seq<MetricView> {
    metrics.update(
        i,
        MetricView {
            value: match metrics[i].value {
                MetricValueView::TimeSeries { values, start_ts } => MetricValueView::TimeSeries {
                    values: values.push(value),
                    start_ts,
                },
                other => other,
            },
            ..metrics[i]
        },
    )
}

/// The metrics of `metrics` whose flag in `keep` is set, in order.
pub open spec fn kept(metrics: Seq<MetricView>, keep: Seq<bool>) -> Seq<MetricView>
    decreases metrics.len(),
{
    if metrics.len() == 0 || keep.len() == 0 {
        Seq::empty()
    } else if keep.last() {
        kept(metrics.drop_last(), keep.drop_last()).push(metrics.last())
    } else {
        kept(metrics.drop_last(), keep.drop_last())
    }
}

/// The metrics themselves, without the lock around them.
pub struct StoreInner {
    metrics: Vec<Metric>,
}

impl View for StoreInner {
    type V = Seq<MetricView>;

    closed spec fn view(&self) -> Seq<MetricView> {
        metric_views(self.metrics@)
    }
}

impl StoreInner {
    /// No two metrics share a name, and no metric has a tag twice.
    #[verifier::type_invariant]
    closed spec fn wf(&self) -> bool {
        &&& names_distinct(metric_views(self.metrics@))
        &&& all_tags_unique(self.metrics@)
    }

    pub fn new() -> (s: Self)
        ensures
            s@ == Seq::<MetricView>::empty(),
    {
        let s = StoreInner { metrics: Vec::new() };
        proof {
            assert(s@ =~= Seq::<MetricView>::empty());
        }
        s
    }

    fn find(metrics: &Vec<Metric>, name: &String) -> (r: Option<usize>)
        requires
            names_distinct(metric_views(metrics@)),
        ensures
            match r {
                Some(i) => has_metric(metric_views(metrics@), name@) && i == metric_index(metric_views(metrics@), name@),
                None => !has_metric(metric_views(metrics@), name@),
            },
    {
        let mut i: usize = 0;
        while i < metrics.len()
            invariant
                names_distinct(metric_views(metrics@)),
                i <= metric_views(metrics@).len(),
                forall|j: int| 0 <= j < i ==> metric_views(metrics@)[j].name != name@,
            decreases metric_views(metrics@).len() - i,
        {
            if metrics[i].name == *name {
                proof {
                    let v = metric_views(metrics@);
                    assert(v[i as int].name == name@);
                    let c = metric_index(v, name@);
                    if c != i {
                        if c < i {
                            assert(v[c].name != v[i as int].name);
                        } else {
                            assert(v[i as int].name != v[c].name);
                        }
                    }
                }
                return Some(i);
            }
            i = i + 1;
        }
        None
    }

    /// Adds `metric`, unless a metric of that name exists.
    fn push_metric_to(metrics: &mut Vec<Metric>, metric: Metric) -> (r: Result<(), StoreError>)
        requires
            names_distinct(metric_views(old(metrics)@)),
            all_tags_unique(old(metrics)@),
        ensures
            names_distinct(metric_views(final(metrics)@)),
            all_tags_unique(final(metrics)@),
            has_metric(metric_views(old(metrics)@), metric@.name) ==> (r matches Err(StoreError::MetricAlreadyExists)
                && metric_views(final(metrics)@) == metric_views(old(metrics)@)),
            !has_metric(metric_views(old(metrics)@), metric@.name) ==> r is Ok && metric_views(final(metrics)@) == metric_views(old(metrics)@).push(
                metric@,
            ),
    {
        if Self::find(metrics, &metric.name).is_some() {
            return Err(StoreError::MetricAlreadyExists);
        }
        let Metric { name, tags, value } = metric;
        let metric = Metric { name, tags: unique_tags(tags), value };
        let ghost m = metric@;
        let ghost before = metrics@;
        metrics.push(metric);
        proof {
            assert forall|i: int| 0 <= i < metrics@.len() implies #[trigger] tags_unique(metrics@[i]) by {
                if i < before.len() {
                    assert(metrics@[i] == before[i]);
                }
            }
            assert(metric_views(metrics@) =~= metric_views(old(metrics)@).push(m));
            assert forall|i: int, j: int| 0 <= i < j < metric_views(metrics@).len() implies metric_views(metrics@)[i].name
                != metric_views(metrics@)[j].name by {
                if j == metric_views(old(metrics)@).len() {
                    assert(metric_views(old(metrics)@)[i].name != m.name);
                } else {
                    assert(metric_views(old(metrics)@)[i].name != metric_views(old(metrics)@)[j].name);
                }
            }
        }
        Ok(())
    }

    pub fn push_metric(&mut self, metric: Metric) -> (r: Result<(), StoreError>)
        ensures
            names_distinct(final(self)@),
            has_metric(old(self)@, metric@.name) ==> (r matches Err(StoreError::MetricAlreadyExists)
                && final(self)@ == old(self)@),
            !has_metric(old(self)@, metric@.name) ==> r is Ok && final(self)@ == old(self)@.push(
                metric@,
            ),
    {
        proof {
            use_type_invariant(&*self);
        }
        let mut metrics: Vec<Metric> = Vec::new();
        std::mem::swap(&mut metrics, &mut self.metrics);
        let r = Self::push_metric_to(&mut metrics, metric);
        self.metrics = metrics;
        r
    }

    pub fn push_message(&mut self, name: &str, tags: Vec<String>, message: String) -> (r: Result<
        (),
        StoreError,
    >)
        ensures
            has_metric(old(self)@, name@) ==> (r matches Err(StoreError::MetricAlreadyExists)
                && final(self)@ == old(self)@),
            !has_metric(old(self)@, name@) ==> r is Ok && final(self)@ == old(self)@.push(
                MetricView {
                    name: name@,
                    tags: tag_set(tags@),
                    value: MetricValueView::Message(message@),
                },
            ),
    {
        self.push_metric(
            Metric { name: String::from_str(name), tags, value: MetricValue::Message(message) },
        )
    }

    /// Adds a counter whose value is the `f64` with bits `value`.
    pub fn push_counter(&mut self, name: &str, tags: Vec<String>, value: u64) -> (r: Result<
        (),
        StoreError,
    >)
        ensures
            has_metric(old(self)@, name@) ==> (r matches Err(StoreError::MetricAlreadyExists)
                && final(self)@ == old(self)@),
            !has_metric(old(self)@, name@) ==> r is Ok && final(self)@ == old(self)@.push(
                MetricView {
                    name: name@,
                    tags: tag_set(tags@),
                    value: MetricValueView::Counter(value),
                },
            ),
    {
        self.push_metric(
            Metric { name: String::from_str(name), tags, value: MetricValue::Counter(value) },
        )
    }

    /// Adds a gauge whose value is the `f64` with bits `value`.
    pub fn push_gauge(&mut self, name: &str, tags: Vec<String>, value: u64) -> (r: Result<
        (),
        StoreError,
    >)
        ensures
            has_metric(old(self)@, name@) ==> (r matches Err(StoreError::MetricAlreadyExists)
                && final(self)@ == old(self)@),
            !has_metric(old(self)@, name@) ==> r is Ok && final(self)@ == old(self)@.push(
                MetricView {
                    name: name@,
                    tags: tag_set(tags@),
                    value: MetricValueView::Gauge(value),
                },
            ),
    {
        self.push_metric(
            Metric { name: String::from_str(name), tags, value: MetricValue::Gauge(value) },
        )
    }

    pub fn push_timestamp(
        &mut self,
        name: &str,
        tags: Vec<String>,
        timestamp: UtcTimestamp,
    ) -> (r: Result<(), StoreError>)
        ensures
            has_metric(old(self)@, name@) ==> (r matches Err(StoreError::MetricAlreadyExists)
                && final(self)@ == old(self)@),
            !has_metric(old(self)@, name@) ==> r is Ok && final(self)@ == old(self)@.push(
                MetricView {
                    name: name@,
                    tags: tag_set(tags@),
                    value: MetricValueView::Timestamp(timestamp),
                },
            ),
    {
        self.push_metric(
            Metric {
                name: String::from_str(name),
                tags,
                value: MetricValue::Timestamp(timestamp),
            },
        )
    }

    /// Appends the `f64` with bits `value` to the time series `name`, creating the series (with
    /// `tags`, starting now) if there is no metric of that name. A metric of that name that is
    /// not a time series is left alone and reported.
    fn push_sample_to(
        metrics: &mut Vec<Metric>,
        name: &str,
        tags: Vec<String>,
        value: u64,
        now: UtcTimestamp,
    ) -> (r: Result<
        (),
        StoreError,
    >)
        requires
            names_distinct(metric_views(old(metrics)@)),
            all_tags_unique(old(metrics)@),
        ensures
            names_distinct(metric_views(final(metrics)@)),
            all_tags_unique(final(metrics)@),
            has_metric(metric_views(old(metrics)@), name@) ==> {
                let i = metric_index(metric_views(old(metrics)@), name@);
                if metric_views(old(metrics)@)[i].value is TimeSeries {
                    r is Ok && metric_views(final(metrics)@) == with_sample(metric_views(old(metrics)@), i, value)
                } else {
                    &&& metric_views(final(metrics)@) == metric_views(old(metrics)@)
                    &&& r matches Err(StoreError::MetricTypeMismatch { expected, found })
                    &&& expected@ == "TimeSeries"@
                    &&& found@ == metric_views(old(metrics)@)[i].value
                }
            },
            !has_metric(metric_views(old(metrics)@), name@) ==> {
                &&& r is Ok
                &&& metric_views(final(metrics)@).len() == metric_views(old(metrics)@).len() + 1
                &&& metric_views(final(metrics)@).drop_last() == metric_views(old(metrics)@)
                &&& metric_views(final(metrics)@).last().name == name@
                &&& metric_views(final(metrics)@).last().tags == tag_set(tags@)
                &&& metric_views(final(metrics)@).last().value == (MetricValueView::TimeSeries {
                    values: seq![value],
                    start_ts: now,
                })
            },
    {
        let key = String::from_str(name);
        match Self::find(metrics, &key) {
            Some(i) => {
                let ghost before = metrics@;
                let mut metric = metrics.remove(i);
                let ghost m0 = metric@;
                let ghost tags0 = metric.tags@;
                let r = match &mut metric.value {
                    MetricValue::TimeSeries { values, .. } => {
                        values.push(value);
                        Ok(())
                    },
                    other => Err(
                        StoreError::MetricTypeMismatch {
                            expected: String::from_str("TimeSeries"),
                            found: (&*other).copy(),
                        },
                    ),
                };
                metrics.insert(i, metric);
                proof {
                    assert(metrics@[i as int].tags@ == tags0);
                    assert forall|k: int| 0 <= k < metrics@.len() implies #[trigger] tags_unique(metrics@[k]) by {
                        if k == i {
                            assert(before[k].tags@ == tags0);
                            assert(tags_unique(before[k]));
                        } else {
                            assert(metrics@[k] == before[k]);
                        }
                    }
                    if m0.value is TimeSeries {
                        assert(metric_views(metrics@) =~= with_sample(metric_views(old(metrics)@), i as int, value));
                    } else {
                        assert(metric_views(metrics@) =~= metric_views(old(metrics)@));
                    }
                    assert forall|a: int, b: int| 0 <= a < b < metric_views(metrics@).len() implies metric_views(metrics@)[a].name
                        != metric_views(metrics@)[b].name by {
                        assert(metric_views(old(metrics)@)[a].name != metric_views(old(metrics)@)[b].name);
                    }
                }
                r
            },
            None => {
                let mut values: Vec<u64> = Vec::new();
                values.push(value);
                let metric = Metric {
                    name: key,
                    tags,
                    value: MetricValue::TimeSeries { values, start_ts: now },
                };
                Self::push_metric_to(metrics, metric)
            },
        }
    }

    /// Appends the `f64` with bits `value` to the time series `name`, creating the series (with
    /// `tags`, starting at `now`) if there is no metric of that name. A metric of that name that
    /// is not a time series is left alone and reported.
    pub fn push_to_timeseries_at(
        &mut self,
        name: &str,
        tags: Vec<String>,
        value: u64,
        now: UtcTimestamp,
    ) -> (r: Result<
        (),
        StoreError,
    >)
        ensures
            names_distinct(final(self)@),
            has_metric(old(self)@, name@) ==> {
                let i = metric_index(old(self)@, name@);
                if old(self)@[i].value is TimeSeries {
                    r is Ok && final(self)@ == with_sample(old(self)@, i, value)
                } else {
                    &&& final(self)@ == old(self)@
                    &&& r matches Err(StoreError::MetricTypeMismatch { expected, found })
                    &&& expected@ == "TimeSeries"@
                    &&& found@ == old(self)@[i].value
                }
            },
            !has_metric(old(self)@, name@) ==> {
                &&& r is Ok
                &&& final(self)@.len() == old(self)@.len() + 1
                &&& final(self)@.drop_last() == old(self)@
                &&& final(self)@.last().name == name@
                &&& final(self)@.last().tags == tag_set(tags@)
                &&& final(self)@.last().value == (MetricValueView::TimeSeries {
                    values: seq![value],
                    start_ts: now,
                })
            },
    {
        proof {
            use_type_invariant(&*self);
        }
        let mut metrics: Vec<Metric> = Vec::new();
        std::mem::swap(&mut metrics, &mut self.metrics);
        let r = Self::push_sample_to(&mut metrics, name, tags, value, now);
        self.metrics = metrics;
        r
    }

    /// Appends the `f64` with bits `value` to the time series `name`, creating the series (with
    /// `tags`, starting at the UTC time read in this call) if there is no metric of that name
    /// (see `push_to_timeseries_at`).
    pub fn push_to_timeseries(&mut self, name: &str, tags: Vec<String>, value: u64) -> (r: Result<
        (),
        StoreError,
    >)
        ensures
            names_distinct(final(self)@),
            has_metric(old(self)@, name@) ==> {
                let i = metric_index(old(self)@, name@);
                if old(self)@[i].value is TimeSeries {
                    r is Ok && final(self)@ == with_sample(old(self)@, i, value)
                } else {
                    &&& final(self)@ == old(self)@
                    &&& r matches Err(StoreError::MetricTypeMismatch { expected, found })
                    &&& expected@ == "TimeSeries"@
                    &&& found@ == old(self)@[i].value
                }
            },
            !has_metric(old(self)@, name@) ==> {
                &&& r is Ok
                &&& final(self)@.len() == old(self)@.len() + 1
                &&& final(self)@.drop_last() == old(self)@
                &&& final(self)@.last().name == name@
                &&& final(self)@.last().tags == tag_set(tags@)
                &&& final(self)@.last().value matches MetricValueView::TimeSeries { values, .. }
                    && values == seq![value]
            },
    {
        proof {
            use_type_invariant(&*self);
        }
        let mut metrics: Vec<Metric> = Vec::new();
        std::mem::swap(&mut metrics, &mut self.metrics);
        let r = Self::push_sample_to(&mut metrics, name, tags, value, utc_now());
        self.metrics = metrics;
        r
    }

    /// Empties every time series and restarts it at `now`; other metrics are left alone.
    fn tick_all(metrics: &mut Vec<Metric>, now: UtcTimestamp)
        requires
            names_distinct(metric_views(old(metrics)@)),
            all_tags_unique(old(metrics)@),
        ensures
            names_distinct(metric_views(final(metrics)@)),
            all_tags_unique(final(metrics)@),
            ticked(metric_views(old(metrics)@), metric_views(final(metrics)@), now),
    {
        let n = metrics.len();
        let mut i: usize = 0;
        while i < n
            invariant
                n == metric_views(metrics@).len(),
                n == metric_views(old(metrics)@).len(),
                i <= n,
                forall|j: int| 0 <= j < n ==> #[trigger] metrics@[j].tags@ == old(metrics)@[j].tags@,
                forall|j: int|
                    0 <= j < n ==> {
                        &&& #[trigger] metric_views(metrics@)[j].name == metric_views(old(metrics)@)[j].name
                        &&& metric_views(metrics@)[j].tags == metric_views(old(metrics)@)[j].tags
                    },
                forall|j: int|
                    i <= j < n ==> #[trigger] metric_views(metrics@)[j].value == metric_views(old(metrics)@)[j].value,
                forall|j: int|
                    0 <= j < i ==> #[trigger] metric_views(metrics@)[j].value == ticked_value(
                        metric_views(old(metrics)@)[j].value,
                        now,
                    ),
            decreases n - i,
        {
            let ghost before = metric_views(metrics@);
            let mut metric = metrics.remove(i);
            let ghost m0 = metric@;
            match &mut metric.value {
                MetricValue::TimeSeries { values, start_ts } => {
                    *values = Vec::new();
                    *start_ts = now;
                },
                _ => {},
            }
            let ghost m1 = metric@;
            let ghost tags1 = metric.tags@;
            metrics.insert(i, metric);
            proof {
                assert(metrics@[i as int].tags@ == tags1);
                assert forall|j: int| 0 <= j < n implies #[trigger] metrics@[j].tags@ == old(metrics)@[j].tags@ by {
                    if j != i {
                        assert(metric_views(metrics@)[j] == before[j]);
                    }
                }
                assert(m0 == before[i as int]);
                assert(m1.name == m0.name && m1.tags == m0.tags);
                assert(m1.value =~= ticked_value(m0.value, now));
                assert(metric_views(metrics@) =~= before.update(i as int, m1));
            }
            i = i + 1;
        }
        proof {
            assert forall|a: int, b: int| 0 <= a < b < metric_views(metrics@).len() implies metric_views(metrics@)[a].name
                != metric_views(metrics@)[b].name by {
                assert(metric_views(old(metrics)@)[a].name != metric_views(old(metrics)@)[b].name);
            }
            assert forall|k: int| 0 <= k < metrics@.len() implies #[trigger] tags_unique(metrics@[k]) by {
                assert(metrics@[k].tags@ == old(metrics)@[k].tags@);
                assert(tags_unique(old(metrics)@[k]));
            }
        }
    }

    /// Empties every time series and restarts it at `now`; other metrics are left alone.
    pub fn tick_at(&mut self, now: UtcTimestamp)
        ensures
            names_distinct(final(self)@),
            ticked(old(self)@, final(self)@, now),
    {
        proof {
            use_type_invariant(&*self);
        }
        let mut metrics: Vec<Metric> = Vec::new();
        std::mem::swap(&mut metrics, &mut self.metrics);
        Self::tick_all(&mut metrics, now);
        self.metrics = metrics;
    }

    /// Empties every time series and restarts it at the UTC time read in this call (see
    /// `tick_at`).
    pub fn tick(&mut self)
        ensures
            names_distinct(final(self)@),
            exists|now: UtcTimestamp| #[trigger] ticked(old(self)@, final(self)@, now),
    {
        let now = utc_now();
        self.tick_at(now);
    }

    /// A copy of the metric called `name`.
    pub fn query_by_name(&self, name: &str) -> (r: Result<Metric, StoreError>)
        ensures
            has_metric(self@, name@) ==> (r matches Ok(m) && m@ == self@[metric_index(
                self@,
                name@,
            )]),
            !has_metric(self@, name@) ==> r matches Err(StoreError::MetricNotFound),
            r matches Ok(m) ==> tag_texts(m.tags@).no_duplicates(),
    {
        proof {
            use_type_invariant(self);
        }
        let key = String::from_str(name);
        match Self::find(&self.metrics, &key) {
            Some(i) => {
                let m = self.metrics[i].copy();
                proof {
                    assert(tags_unique(self.metrics@[i as int]));
                }
                Ok(m)
            },
            None => Err(StoreError::MetricNotFound),
        }
    }

    proof fn lemma_found_name(&self, name: Seq<char>)
        requires
            has_metric(self@, name),
        ensures
            self@[metric_index(self@, name)].name == name,
    {
    }

    /// Copies of the metrics whose flag in `keep` is set, in store order.
    pub fn select(&self, keep: &Vec<bool>) -> (r: Vec<Metric>)
        requires
            keep@.len() == self@.len(),
        ensures
            metric_views(r@) == kept(self@, keep@),
    {
        let mut r: Vec<Metric> = Vec::new();
        let mut i: usize = 0;
        while i < self.metrics.len()
            invariant
                keep@.len() == self@.len(),
                i <= self@.len(),
                metric_views(r@) == kept(self@.take(i as int), keep@.take(i as int)),
            decreases self@.len() - i,
        {
            proof {
                assert(self@.take(i + 1).drop_last() =~= self@.take(i as int));
                assert(keep@.take(i + 1).drop_last() =~= keep@.take(i as int));
            }
            if keep[i] {
                let m = self.metrics[i].copy();
                r.push(m);
                proof {
                    assert(metric_views(r@) =~= kept(self@.take(i as int), keep@.take(i as int)).push(m@));
                }
            }
            i = i + 1;
        }
        proof {
            assert(self@.take(self@.len() as int) =~= self@);
            assert(keep@.take(self@.len() as int) =~= keep@);
        }
        r
    }

    /// Copies of the metrics that `filter` matches, in store order.
    pub fn query_with_filter<F: MetricFilter>(&self, filter: &F) -> (r: Vec<Metric>)
        ensures
            metric_views(r@) == kept(self@, matches_of(filter, self@)),
    {
        let mut keep: Vec<bool> = Vec::new();
        let mut i: usize = 0;
        while i < self.metrics.len()
            invariant
                i <= self@.len(),
                keep@ == matches_of(filter, self@).take(i as int),
            decreases self@.len() - i,
        {
            let b = filter.matches(&self.metrics[i]);
            keep.push(b);
            proof {
                assert(self.metrics@[i as int]@ == self@[i as int]);
                assert(keep@ =~= matches_of(filter, self@).take(i + 1));
            }
            i = i + 1;
        }
        proof {
            assert(keep@ =~= matches_of(filter, self@));
        }
        self.select(&keep)
    }
}

/// Every metric that `kept` keeps is a metric of `metrics` whose flag is set.
#[verifier::spinoff_prover]
proof fn lemma_kept_from(metrics: Seq<MetricView>, keep: Seq<bool>)
    requires
        metrics.len() == keep.len(),
    ensures
        forall|i: int|
            0 <= i < kept(metrics, keep).len() ==> exists|j: int|
                0 <= j < metrics.len() && keep[j] && #[trigger] kept(metrics, keep)[i]
                    == metrics[j],
    decreases metrics.len(),
{
    if metrics.len() > 0 {
        let pm = metrics.drop_last();
        let pk = keep.drop_last();
        lemma_kept_from(pm, pk);
        let k = kept(metrics, keep);
        let pkept = kept(pm, pk);
        let last = metrics.len() - 1;
        if keep.last() {
            assert(k == pkept.push(metrics.last()));
        } else {
            assert(k == pkept);
        }
        assert forall|i: int| 0 <= i < k.len() implies exists|j: int|
            0 <= j < metrics.len() && keep[j] && #[trigger] k[i] == metrics[j] by {
            if keep.last() && i == k.len() - 1 {
                assert(k[i] == metrics[last] && keep[last]);
            } else {
                assert(k[i] == pkept[i]);
                let j = choose|j: int| 0 <= j < pm.len() && pk[j] && #[trigger] pkept[i] == pm[j];
                assert(pm[j] == metrics[j] && pk[j] == keep[j]);
            }
        }
    } else {
        assert(kept(metrics, keep).len() == 0);
    }
}

/// For each metric of `metrics`, in order, whether `filter` matches it.
pub open spec fn matches_of<F: MetricFilter>(filter: &F, metrics: Seq<MetricView>) -> Seq<bool> {
    Seq::new(metrics.len(), |i: int| filter.spec_matches(metrics[i]))
}

/// Decides which metrics a query returns.
pub trait MetricFilter {
    /// Whether the filter matches a metric: a function of the filter and the metric.
    ///
    /// An implementation defines this to say what its exec method computes; where it does not,
    /// the contracts that speak of it say nothing of that implementation.
    open spec fn spec_matches(&self, m: MetricView) -> bool {
        vstd::pervasive::arbitrary()
    }

    fn matches(&self, metric: &Metric) -> (b: bool)
        ensures
            b == self.spec_matches(metric@),
    ;
}

/// Matches the metric with a given name.
pub struct NameFilter<'a> {
    pub name: &'a str,
}

impl<'a> NameFilter<'a> {
    pub fn new(name: &'a str) -> (f: Self)
        ensures
            f.name == name,
    {
        NameFilter { name }
    }
}

impl<'a> MetricFilter for NameFilter<'a> {
    /// The metric has the filter's name.
    open spec fn spec_matches(&self, m: MetricView) -> bool {
        m.name == self.name@
    }

    fn matches(&self, metric: &Metric) -> (b: bool)
        ensures
            b == (metric.name@ == self.name@),
    {
        metric.name == String::from_str(self.name)
    }
}

/// How a tag filter compares its tags with a metric's.
pub enum TagFilterMode {
    /// Every filter tag is a tag of the metric.
    All,
    /// No filter tag is a tag of the metric.
    Any,
}

/// Matches metrics by their tags.
pub struct TagFilter {
    pub tags: Vec<String>,
    pub mode: TagFilterMode,
}

impl TagFilter {
    /// A filter in `Any` mode: it matches the metrics that have none of `tags`.
    pub fn any_of(tags: Vec<String>) -> (f: Self)
        ensures
            f.tags == tags,
            f.mode is Any,
    {
        TagFilter { tags, mode: TagFilterMode::Any }
    }

    /// A filter in `All` mode: it matches the metrics that have all of `tags`.
    pub fn all_of(tags: Vec<String>) -> (f: Self)
        ensures
            f.tags == tags,
            f.mode is All,
    {
        TagFilter { tags, mode: TagFilterMode::All }
    }
}

fn has_tag(tags: &Vec<String>, tag: &String) -> (b: bool)
    ensures
        b == tag_set(tags@).contains(tag@),
{
    let mut i: usize = 0;
    while i < tags.len()
        invariant
            i <= tags@.len(),
            forall|j: int| 0 <= j < i ==> tags@[j]@ != tag@,
        decreases tags@.len() - i,
    {
        if tags[i] == *tag {
            proof {
                assert(tag_texts(tags@)[i as int] == tag@);
            }
            return true;
        }
        i = i + 1;
    }
    proof {
        if tag_set(tags@).contains(tag@) {
            let k = choose|k: int| 0 <= k < tags@.len() && #[trigger] tag_texts(tags@)[k] == tag@;
            assert(tags@[k]@ == tag@);
        }
    }
    false
}

impl MetricFilter for TagFilter {
    /// In `All` mode the filter's tags are among the metric's; in `Any` mode none of them is.
    open spec fn spec_matches(&self, m: MetricView) -> bool {
        match self.mode {
            TagFilterMode::All => tag_set(self.tags@).subset_of(m.tags),
            TagFilterMode::Any => tag_set(self.tags@).disjoint(m.tags),
        }
    }

    fn matches(&self, metric: &Metric) -> (b: bool)
        ensures
            b == match self.mode {
                TagFilterMode::All => tag_set(self.tags@).subset_of(tag_set(metric.tags@)),
                TagFilterMode::Any => tag_set(self.tags@).disjoint(tag_set(metric.tags@)),
            },
    {
        let mut i: usize = 0;
        while i < self.tags.len()
            invariant
                i <= self.tags@.len(),
                forall|j: int|
                    0 <= j < i ==> match self.mode {
                        TagFilterMode::All => tag_set(metric.tags@).contains(
                            #[trigger] self.tags@[j]@,
                        ),
                        TagFilterMode::Any => !tag_set(metric.tags@).contains(self.tags@[j]@),
                    },
            decreases self.tags@.len() - i,
        {
            let found = has_tag(&metric.tags, &self.tags[i]);
            match self.mode {
                TagFilterMode::All => {
                    if !found {
                        proof {
                            assert(tag_texts(self.tags@)[i as int] == self.tags@[i as int]@);
                        }
                        return false;
                    }
                },
                TagFilterMode::Any => {
                    if found {
                        proof {
                            assert(tag_texts(self.tags@)[i as int] == self.tags@[i as int]@);
                        }
                        return false;
                    }
                },
            }
            i = i + 1;
        }
        proof {
            assert forall|x: Seq<char>| tag_set(self.tags@).contains(x) implies match self.mode {
                TagFilterMode::All => tag_set(metric.tags@).contains(x),
                TagFilterMode::Any => !tag_set(metric.tags@).contains(x),
            } by {
                let k = choose|k: int| 0 <= k < self.tags@.len() && #[trigger] tag_texts(self.tags@)[k] == x;
                assert(self.tags@[k]@ == x);
            }
        }
        true
    }
}

/// A metric pushed under a name the store does not have is what a query by that name gives
/// back, and the names stay distinct.
pub proof fn law_query_finds_pushed(s: Seq<MetricView>, m: MetricView)
    requires
        names_distinct(s),
        !has_metric(s, m.name),
    ensures
        names_distinct(s.push(m)),
        has_metric(s.push(m), m.name),
        s.push(m)[metric_index(s.push(m), m.name)] == m,
{
    let t = s.push(m);
    let n = s.len() as int;
    assert(t[n].name == m.name);
    let c = metric_index(t, m.name);
    if c != n {
        assert(t[c] == s[c]);
    }
}

/// After a sample is appended to the time series called `name`, a query by that name gives
/// the same series (same name, tags and start) with the sample at the end.
pub proof fn law_query_sees_sample(s: Seq<MetricView>, name: Seq<char>, v: u64)
    requires
        names_distinct(s),
        has_metric(s, name),
        s[metric_index(s, name)].value is TimeSeries,
    ensures
        ({
            let i = metric_index(s, name);
            let t = with_sample(s, i, v);
            &&& names_distinct(t)
            &&& has_metric(t, name)
            &&& metric_index(t, name) == i
            &&& t[i].name == name
            &&& t[i].tags == s[i].tags
            &&& s[i].value matches MetricValueView::TimeSeries { values: v0, start_ts: s0 }
            &&& t[i].value matches MetricValueView::TimeSeries { values: v1, start_ts: s1 }
            &&& v1 == v0.push(v)
            &&& s1 == s0
        }),
{
    let i = metric_index(s, name);
    let t = with_sample(s, i, v);
    assert(t[i].name == name);
    assert forall|a: int, b: int| 0 <= a < b < t.len() implies t[a].name != t[b].name by {
        assert(s[a].name != s[b].name);
    }
    let c = metric_index(t, name);
    if c != i {
        if c < i {
            assert(t[c].name != t[i].name);
        } else {
            assert(t[i].name != t[c].name);
        }
    }
}

/// `Mutex::new`: a mutex holding `inner`.
#[verifier::external_body]
fn new_store_mutex(inner: StoreInner) -> Mutex<StoreInner> {
    Mutex::new(inner)
}

/// `Mutex::lock`: the guard of the store, or `None` when the lock is poisoned. The store behind
/// the guard is shared with every clone of the `ArcStore`, so what it holds is not stated.
#[verifier::external_body]
fn lock_store(store: &Mutex<StoreInner>) -> Option<MutexGuard<'_, StoreInner>> {
    store.lock().ok()
}

/// `MutexGuard`'s `DerefMut`: the store behind the guard. What it holds is not stated.
#[verifier::external_body]
fn guarded<'a, 'b>(guard: &'a mut MutexGuard<'b, StoreInner>) -> &'a mut StoreInner {
    &mut **guard
}

/// A store that clones share, guarded by a lock.
#[derive(Clone)]
pub struct ArcStore {
    store: Arc<Mutex<StoreInner>>,
}

impl ArcStore {
    /// An empty store.
    pub fn new() -> (s: Self) {
        ArcStore { store: Arc::new(new_store_mutex(StoreInner::new())) }
    }
}

impl Default for ArcStore {
    /// An empty store (see `ArcStore::new`).
    fn default() -> (s: Self) {
        Self::new()
    }
}

impl ArcStore {

    /// Adds a message metric (see `StoreInner::push_message`).
    pub fn push_message(&self, name: &str, tags: Vec<String>, message: String) -> (r: Result<
        (),
        StoreError,
    >)
        ensures
            r is Ok || r matches Err(StoreError::LockError) || r matches Err(
                StoreError::MetricAlreadyExists,
            ),
    {
        match lock_store(&self.store) {
            None => Err(StoreError::LockError),
            Some(mut guard) => guarded(&mut guard).push_message(name, tags, message),
        }
    }

    /// Adds a counter metric (see `StoreInner::push_counter`).
    pub fn push_counter(&self, name: &str, tags: Vec<String>, value: u64) -> (r: Result<
        (),
        StoreError,
    >)
        ensures
            r is Ok || r matches Err(StoreError::LockError) || r matches Err(
                StoreError::MetricAlreadyExists,
            ),
    {
        match lock_store(&self.store) {
            None => Err(StoreError::LockError),
            Some(mut guard) => guarded(&mut guard).push_counter(name, tags, value),
        }
    }

    /// Adds a gauge metric (see `StoreInner::push_gauge`).
    pub fn push_gauge(&self, name: &str, tags: Vec<String>, value: u64) -> (r: Result<
        (),
        StoreError,
    >)
        ensures
            r is Ok || r matches Err(StoreError::LockError) || r matches Err(
                StoreError::MetricAlreadyExists,
            ),
    {
        match lock_store(&self.store) {
            None => Err(StoreError::LockError),
            Some(mut guard) => guarded(&mut guard).push_gauge(name, tags, value),
        }
    }

    /// Adds a timestamp metric (see `StoreInner::push_timestamp`).
    pub fn push_timestamp(&self, name: &str, tags: Vec<String>, timestamp: UtcTimestamp) -> (r:
        Result<(), StoreError>)
        ensures
            r is Ok || r matches Err(StoreError::LockError) || r matches Err(
                StoreError::MetricAlreadyExists,
            ),
    {
        match lock_store(&self.store) {
            None => Err(StoreError::LockError),
            Some(mut guard) => guarded(&mut guard).push_timestamp(name, tags, timestamp),
        }
    }

    /// Appends to a time series (see `StoreInner::push_to_timeseries`).
    pub fn push_to_timeseries(&self, name: &str, tags: Vec<String>, value: u64) -> (r: Result<
        (),
        StoreError,
    >)
        ensures
            r is Ok || r matches Err(StoreError::LockError) || r matches Err(
                StoreError::MetricTypeMismatch { .. },
            ),
    {
        match lock_store(&self.store) {
            None => Err(StoreError::LockError),
            Some(mut guard) => guarded(&mut guard).push_to_timeseries(name, tags, value),
        }
    }

    /// Empties and restarts every time series (see `StoreInner::tick`).
    pub fn tick(&self) -> (r: Result<(), StoreError>)
        ensures
            r is Ok || r matches Err(StoreError::LockError),
    {
        match lock_store(&self.store) {
            None => Err(StoreError::LockError),
            Some(mut guard) => {
                guarded(&mut guard).tick();
                Ok(())
            },
        }
    }

    /// A copy of the metric called `name` (see `StoreInner::query_by_name`).
    pub fn query_by_name(&self, name: &str) -> (r: Result<Metric, StoreError>)
        ensures
            r matches Ok(m) ==> m@.name == name@ && tag_texts(m.tags@).no_duplicates(),
            r is Ok || r matches Err(StoreError::LockError) || r matches Err(
                StoreError::MetricNotFound,
            ),
    {
        match lock_store(&self.store) {
            None => Err(StoreError::LockError),
            Some(mut guard) => {
                let inner = guarded(&mut guard);
                let r = inner.query_by_name(name);
                proof {
                    if r is Ok {
                        inner.lemma_found_name(name@);
                    }
                }
                r
            },
        }
    }

    /// Copies of the metrics that `filter` matches (see `StoreInner::query_with_filter`).
    pub fn query_with_filter<F: MetricFilter>(&self, filter: F) -> (r: Result<
        Vec<Metric>,
        StoreError,
    >)
        ensures
            r is Ok || r matches Err(StoreError::LockError),
            r matches Ok(v) ==> exists|s: Seq<MetricView>|
                names_distinct(s) && metric_views(v@) == kept(s, matches_of(&filter, s)),
            r matches Ok(v) ==> forall|i: int|
                0 <= i < v@.len() ==> filter.spec_matches(#[trigger] metric_views(v@)[i]),
    {
        match lock_store(&self.store) {
            None => Err(StoreError::LockError),
            Some(mut guard) => {
                let inner = guarded(&mut guard);
                proof {
                    use_type_invariant(&*inner);
                }
                let v = inner.query_with_filter(&filter);
                proof {
                    let st = inner@;
                    assert(names_distinct(st));
                    lemma_kept_from(st, matches_of(&filter, st));
                    assert forall|i: int| 0 <= i < v@.len() implies filter.spec_matches(
                        #[trigger] metric_views(v@)[i],
                    ) by {
                        let j = choose|j: int|
                            0 <= j < st.len() && matches_of(&filter, st)[j] && kept(
                                st,
                                matches_of(&filter, st),
                            )[i] == st[j];
                    }
                }
                Ok(v)
            },
        }
    }
}

/// Each metric whose flag is set is among the metrics `kept` keeps.
proof fn lemma_kept_contains(metrics: Seq<MetricView>, keep: Seq<bool>, j: int)
    requires
        metrics.len() == keep.len(),
        0 <= j < metrics.len(),
        keep[j],
    ensures
        kept(metrics, keep).contains(metrics[j]),
    decreases metrics.len(),
{
    let last = metrics.len() - 1;
    if j == last {
        assert(kept(metrics, keep) == kept(metrics.drop_last(), keep.drop_last()).push(metrics[j]));
        assert(kept(metrics, keep)[kept(metrics, keep).len() - 1] == metrics[j]);
    } else {
        lemma_kept_contains(metrics.drop_last(), keep.drop_last(), j);
        let pk = kept(metrics.drop_last(), keep.drop_last());
        assert(metrics.drop_last()[j] == metrics[j]);
        let w = choose|w: int| 0 <= w < pk.len() && pk[w] == metrics[j];
        if keep.last() {
            assert(kept(metrics, keep) == pk.push(metrics.last()));
            assert(kept(metrics, keep)[w] == metrics[j]);
        } else {
            assert(kept(metrics, keep) == pk);
        }
    }
}

/// A query with a filter gives every metric of the store that the filter matches, and only
/// such metrics.
pub proof fn law_filter_query_gives_every_match<F: MetricFilter>(filter: &F, s: Seq<MetricView>)
    ensures
        forall|j: int|
            0 <= j < s.len() && filter.spec_matches(s[j]) ==> #[trigger] kept(
                s,
                matches_of(filter, s),
            ).contains(s[j]),
        forall|i: int|
            0 <= i < kept(s, matches_of(filter, s)).len() ==> filter.spec_matches(
                #[trigger] kept(s, matches_of(filter, s))[i],
            ),
{
    let keep = matches_of(filter, s);
    assert forall|j: int| 0 <= j < s.len() && filter.spec_matches(s[j]) implies #[trigger] kept(
        s,
        keep,
    ).contains(s[j]) by {
        lemma_kept_contains(s, keep, j);
    }
    lemma_kept_from(s, keep);
    assert forall|i: int| 0 <= i < kept(s, keep).len() implies filter.spec_matches(
        #[trigger] kept(s, keep)[i],
    ) by {
        let j = choose|j: int| 0 <= j < s.len() && keep[j] && #[trigger] kept(s, keep)[i] == s[j];
    }
}

/// After a tick at `now`, a query finds exactly the names it found before; a time series
/// found under a name holds no samples and starts at `now`, with the same tags; any other
/// metric is found unchanged.
pub proof fn law_tick_empties_every_series(
    old: Seq<MetricView>,
    new: Seq<MetricView>,
    now: UtcTimestamp,
    name: Seq<char>,
)
    requires
        names_distinct(old),
        ticked(old, new, now),
    ensures
        has_metric(new, name) == has_metric(old, name),
        has_metric(old, name) ==> ({
            let i = metric_index(old, name);
            let k = metric_index(new, name);
            &&& new[k].name == name
            &&& new[k].tags == old[i].tags
            &&& old[i].value is TimeSeries ==> new[k].value == (MetricValueView::TimeSeries {
                values: Seq::empty(),
                start_ts: now,
            })
            &&& !(old[i].value is TimeSeries) ==> new[k].value == old[i].value
        }),
{
    if has_metric(old, name) {
        let i = metric_index(old, name);
        assert(new[i].name == name);
        let k = metric_index(new, name);
        if k != i {
            assert(new[k].name == old[k].name);
            if k < i {
                assert(old[k].name != old[i].name);
            } else {
                assert(old[i].name != old[k].name);
            }
        }
    }
    if has_metric(new, name) {
        let k = metric_index(new, name);
        assert(old[k].name == new[k].name);
    }
}

} // verus!
