use pantheon::rt_metrics::{
    Counter, Gauge, Instant, Message, MetricKind, RtMetric, StoreError, TimeSeries, MAX_TS_VALUES,
};
use pantheon::rt_store::{check_read, MetricCollection, RtStore};

#[test]
fn time_series_fills_up() {
    let mut ts = TimeSeries::new();
    assert!(ts.is_empty());
    for i in 0..MAX_TS_VALUES {
        assert!(ts.push((i as f32).to_bits()).is_ok());
    }
    assert_eq!(ts.len(), 256);
    assert_eq!(ts.push(1.0f32.to_bits()), Err(StoreError::FullTimeSeries));
    assert_eq!(f32::from_bits(ts.values()[3]), 3.0);
    assert_eq!(ts.values().len(), 256);
}

#[test]
fn simple_metrics_hold_their_value() {
    let mut m = Message::default();
    assert_eq!(m.value(), "");
    m.set("running");
    assert_eq!(m.value(), "running");

    let mut g = Gauge::default();
    g.set(2.5f32.to_bits());
    assert_eq!(f32::from_bits(g.value()), 2.5);
    assert_eq!(Counter::default().value(), 0);

    let mut i = Instant::default();
    assert!(!i.is_set());
    let now = std::time::Instant::now();
    i.set(now);
    assert!(i.is_set());
    assert_eq!(i.value(), Some(now));
    i.reset();
    assert_eq!(i.value(), None);
}

#[test]
fn reset_restores_defaults_and_keeps_kind() {
    let mut ts = TimeSeries::new();
    ts.push(9).unwrap();
    let mut metrics = vec![
        RtMetric::from(Message("x")),
        RtMetric::from(ts),
        RtMetric::from(Counter(5)),
        RtMetric::from(Gauge(6)),
        RtMetric::from(Instant(Some(std::time::Instant::now()))),
    ];
    let kinds = [MetricKind::Message, MetricKind::TimeSeries, MetricKind::Counter, MetricKind::Gauge, MetricKind::Instant];
    for (m, k) in metrics.iter_mut().zip(kinds) {
        m.reset();
        assert_eq!(m.kind(), k);
    }
    assert!(matches!(metrics[0], RtMetric::Message(Message(""))));
    assert!(matches!(metrics[1], RtMetric::TimeSeries(t) if t.is_empty()));
    assert!(matches!(metrics[2], RtMetric::Counter(Counter(0))));
    assert!(matches!(metrics[4], RtMetric::Instant(Instant(None))));
}

#[test]
fn reads_need_a_new_completed_batch() {
    let t = std::time::Instant::now();
    assert_eq!(check_read(&None, false, &Some(t)), Err(StoreError::StoreNotInitialized));
    assert_eq!(check_read(&None, true, &Some(t)), Ok(()));
    assert_eq!(check_read(&Some(t), true, &Some(t)), Err(StoreError::StoreAlreadyRead));
    let later = t + std::time::Duration::from_millis(1);
    assert_eq!(check_read(&Some(t), true, &Some(later)), Ok(()));
}

#[derive(Clone, Default)]
struct Two {
    a: Gauge,
    b: Counter,
}

impl MetricCollection for Two {
    fn iter_mut(&mut self) -> Vec<RtMetric> {
        vec![RtMetric::Gauge(self.a), RtMetric::Counter(self.b)]
    }
}

#[test]
fn store_round_trip_through_the_triple_buffer() {
    let Some(store) = RtStore::<Two>::init() else {
        return;
    };
    let (mut writer, mut reader) = store.split();
    assert!(matches!(reader.read(), Err(StoreError::StoreNotInitialized)));
    writer.reset_and_enter();
    writer.inner().a.set(3);
    writer.exit_and_publish();
    let batch = reader.read().unwrap();
    assert!(batch.initialized);
    assert_eq!(batch.metrics.a.value(), 3);
    assert!(batch.end_instant.is_some());
    assert!(matches!(reader.read(), Err(StoreError::StoreAlreadyRead)));
}


#[test]
fn batch_enter_and_exit_record_the_given_instants() {
    let mut store = RtStore { initialized: false, metrics: Two::default(), start_instant: None, end_instant: None };
    let start = std::time::Instant::now();
    let end = start + std::time::Duration::from_millis(3);
    store.enter_at(start);
    assert_eq!(store.start_instant, Some(start));
    assert!(!store.initialized);
    store.exit_at(end);
    assert_eq!(store.end_instant, Some(end));
    assert_eq!(store.start_instant, Some(start));
    assert!(store.initialized);
}
