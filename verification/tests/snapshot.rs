use pantheon::rt_metrics::{MetricKind, MAX_TS_VALUES};
use pantheon::rt_snapshot::{
    MetricCollection, MetricValue, NameFilter, RtMetricValue, RtStore, StoreError, StoreSnapshot,
};

#[derive(Clone)]
struct Loop;

impl MetricCollection<3> for Loop {
    fn get_index(name: &str) -> Option<usize> {
        match name {
            "status" => Some(0),
            "latency" => Some(1),
            "load" => Some(2),
            _ => None,
        }
    }

    fn get_name(index: usize) -> &'static str {
        ["status", "latency", "load"][index]
    }
}

fn loop_shape() -> [(&'static str, MetricKind); 3] {
    [("status", MetricKind::Message), ("latency", MetricKind::TimeSeries), ("load", MetricKind::Gauge)]
}

#[test]
fn realtime_values_start_at_their_kind_default() {
    assert!(matches!(RtMetricValue::default_with_kind(MetricKind::Message), RtMetricValue::Message("")));
    assert!(matches!(RtMetricValue::default_with_kind(MetricKind::Counter), RtMetricValue::Counter(0)));
    assert!(matches!(
        RtMetricValue::default_with_kind(MetricKind::TimeSeries),
        RtMetricValue::TimeSeries { n_values: 0, start_instant: None, end_instant: None, .. }
    ));
    let mut v = RtMetricValue::Gauge(7);
    v.reset();
    assert!(matches!(v, RtMetricValue::Gauge(0)));
    assert_eq!(v.kind(), MetricKind::Gauge);
}

#[test]
fn setters_check_name_and_kind() {
    let Some(mut store) = RtStore::<3, Loop>::init(loop_shape()) else {
        return;
    };
    assert_eq!(store.set_message_at(Some(0), "ok"), Ok(()));
    assert_eq!(store.set_gauge_at(None, 1), Err(StoreError::MetricNotFound));
    assert_eq!(
        store.set_counter_at(Some(2), 1),
        Err(StoreError::MetricTypeMismatch { expected: "Counter".to_string(), found: "RtMetricValue".to_string() })
    );
    assert_eq!(store.set_gauge_at(Some(2), 4.0f32.to_bits()), Ok(()));
    for i in 0..MAX_TS_VALUES {
        assert_eq!(store.push_value_at(Some(1), i as u32), Ok(()));
    }
    assert_eq!(store.push_value_at(Some(1), 0), Err(StoreError::FullTimeSeries));
    assert_eq!(
        store.push_value_at(Some(0), 0),
        Err(StoreError::MetricTypeMismatch { expected: "TimeSeries".to_string(), found: "RtMetricValue".to_string() })
    );
}

#[test]
fn snapshot_shows_the_values_of_the_batch() {
    let Some(mut store) = RtStore::<3, Loop>::init(loop_shape()) else {
        return;
    };
    store.enter();
    store.set_message_at(Some(0), "ok").unwrap();
    store.push_value_at(Some(1), 1.5f32.to_bits()).unwrap();
    store.push_value_at(Some(1), 2.5f32.to_bits()).unwrap();
    store.set_gauge_at(Some(2), 9).unwrap();
    store.exit();
    assert!(store.all_convertible());
    let snap = StoreSnapshot::from(&store);
    match snap.query_by_name("latency").unwrap().value {
        MetricValue::TimeSeries { values, start_instant, end_instant } => {
            assert_eq!(values, vec![1.5f32.to_bits(), 2.5f32.to_bits()]);
            assert!(start_instant <= end_instant);
        }
        other => panic!("unexpected {:?}", other),
    }
    assert!(matches!(snap.query_by_name("status").unwrap().value, MetricValue::Message(ref m) if m == "ok"));
    assert!(matches!(snap.query_by_name("nope"), Err(StoreError::MetricNotFound)));
    let only = snap.query_with_filter(NameFilter { name: "load".to_string() }).unwrap();
    assert_eq!(only.len(), 1);
    assert!(matches!(only[0].value, MetricValue::Gauge(9)));
}

#[test]
fn snapshot_keeps_the_last_metric_of_a_name() {
    let shape = [("x", MetricKind::Counter), ("y", MetricKind::Gauge), ("x", MetricKind::Gauge)];
    let Some(mut store) = RtStore::<3, Loop>::init(shape) else {
        return;
    };
    store.set_counter_at(Some(0), 1).unwrap();
    store.set_gauge_at(Some(2), 5).unwrap();
    let snap = StoreSnapshot::from(&store);
    assert!(matches!(snap.query_by_name("x").unwrap().value, MetricValue::Gauge(5)));
    assert_eq!(snap.query_with_filter(NameFilter { name: "y".to_string() }).unwrap().len(), 1);
}

#[test]
fn unset_instants_make_a_batch_unreadable() {
    let shape = [("t", MetricKind::Instant), ("s", MetricKind::TimeSeries), ("g", MetricKind::Gauge)];
    let Some(mut store) = RtStore::<3, Loop>::init(shape) else {
        return;
    };
    assert!(!store.all_convertible());
    store.set_instant_at(Some(0), std::time::Instant::now()).unwrap();
    assert!(!store.all_convertible());
    store.enter();
    store.exit();
    assert!(!store.all_convertible());
    store.set_instant_at(Some(0), std::time::Instant::now()).unwrap();
    assert!(store.all_convertible());
}

#[test]
fn writer_and_reader_share_batches() {
    let Some((mut writer, mut reader)) = RtStore::<3, Loop>::split(loop_shape()) else {
        return;
    };
    assert!(reader.read_snapshot().is_none());
    writer.enter();
    assert_eq!(writer.set_gauge("load", 3), Ok(()));
    assert_eq!(writer.set_gauge("missing", 3), Err(StoreError::MetricNotFound));
    assert_eq!(writer.push_value_to_ts("latency", 8), Ok(()));
    writer.exit();
    let snap = reader.read_snapshot().unwrap();
    assert!(matches!(snap.query_by_name("load").unwrap().value, MetricValue::Gauge(3)));
}

#[test]
fn enter_and_exit_record_the_given_instants() {
    let Some(mut store) = RtStore::<3, Loop>::init(loop_shape()) else {
        return;
    };
    let start = std::time::Instant::now();
    let end = start + std::time::Duration::from_millis(5);
    store.push_value_at(Some(1), 7).unwrap();
    store.enter_at(start);
    store.exit_at(end);
    let snap = StoreSnapshot::from(&store);
    match snap.query_by_name("latency").unwrap().value {
        MetricValue::TimeSeries { values, start_instant, end_instant } => {
            assert!(values.is_empty());
            assert_eq!(start_instant, start);
            assert_eq!(end_instant, end);
        }
        other => panic!("unexpected {:?}", other),
    }
}
