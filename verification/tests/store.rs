use pantheon::store::{
    ArcStore, MetricFilter, MetricValue, NameFilter, StoreError, StoreInner, TagFilter,
    UtcTimestamp,
};

fn tags_of(names: &[&str]) -> Vec<String> {
    names.iter().map(|s| s.to_string()).collect()
}

#[test]
fn test_push_and_query_metric() {
    let store = ArcStore::new();
    let tags: Vec<String> = ["tag1".to_string(), "tag2".to_string()].iter().cloned().collect();

    store.push_counter("test_metric", tags.clone(), 42.0f64.to_bits()).unwrap();

    let metric = store.query_by_name("test_metric").unwrap();
    assert_eq!(metric.name, "test_metric");
    assert_eq!(metric.tags, tags);
    if let MetricValue::Counter(value) = metric.value {
        assert_eq!(f64::from_bits(value), 42.0);
    } else {
        panic!("Expected Counter value");
    }
}

#[test]
fn test_query_with_filter() {
    let store = ArcStore::new();
    let tags1: Vec<String> = ["tag1".to_string(), "tag2".to_string()].iter().cloned().collect();
    let tags2: Vec<String> = ["tag3".to_string(), "tag4".to_string()].iter().cloned().collect();

    store.push_counter("metric1", tags1.clone(), 10.0f64.to_bits()).unwrap();
    store.push_counter("metric2", tags2.clone(), 20.0f64.to_bits()).unwrap();

    let filter = NameFilter { name: "metric1" };
    let result = store.query_with_filter(filter).unwrap();
    assert_eq!(result.len(), 1);
    assert!(result.iter().any(|m| m.name == "metric1"));
}

#[test]
fn test_push_and_query_timeseries() {
    let store = ArcStore::new();
    let tags: Vec<String> = ["tag1".to_string(), "tag2".to_string()].iter().cloned().collect();

    store.push_to_timeseries("test_timeseries", tags.clone(), 1.0f64.to_bits()).unwrap();
    store.push_to_timeseries("test_timeseries", tags.clone(), 2.0f64.to_bits()).unwrap();

    let metric = store.query_by_name("test_timeseries").unwrap();
    assert_eq!(metric.name, "test_timeseries");
    assert_eq!(metric.tags, tags);
    if let MetricValue::TimeSeries { values, .. } = metric.value {
        let values: Vec<f64> = values.into_iter().map(f64::from_bits).collect();
        assert_eq!(values, vec![1.0, 2.0]);
    } else {
        panic!("Expected TimeSeries value");
    }
}

// Further cases.

#[test]
fn pushing_an_existing_name_is_refused() {
    let store = ArcStore::new();
    store.push_message("m", tags_of(&["a"]), "hello".to_string()).unwrap();
    let again = store.push_gauge("m", tags_of(&[]), 1.5f64.to_bits());
    assert!(matches!(again, Err(StoreError::MetricAlreadyExists)));
    let metric = store.query_by_name("m").unwrap();
    assert!(matches!(metric.value, MetricValue::Message(ref s) if s == "hello"));
}

#[test]
fn missing_metric_is_not_found() {
    let store = ArcStore::new();
    assert!(matches!(store.query_by_name("nothing"), Err(StoreError::MetricNotFound)));
}

#[test]
fn timeseries_push_on_other_kind_is_a_mismatch() {
    let store = ArcStore::new();
    store.push_counter("c", tags_of(&[]), 3.0f64.to_bits()).unwrap();
    match store.push_to_timeseries("c", tags_of(&[]), 1.0f64.to_bits()) {
        Err(StoreError::MetricTypeMismatch { expected, found }) => {
            assert_eq!(expected, "TimeSeries");
            assert!(matches!(found, MetricValue::Counter(bits) if bits == 3.0f64.to_bits()));
            let text = match found {
                MetricValue::Counter(bits) => format!("Counter({:?})", f64::from_bits(bits)),
                _ => String::new(),
            };
            assert_eq!(text, "Counter(3.0)");
        }
        other => panic!("unexpected {other:?}"),
    }
}

#[test]
fn tick_empties_time_series_only() {
    let mut inner = StoreInner::new();
    inner.push_to_timeseries("ts", tags_of(&["x"]), 5u64).unwrap();
    inner.push_gauge("g", tags_of(&[]), 7u64).unwrap();
    inner.tick();
    match inner.query_by_name("ts").unwrap().value {
        MetricValue::TimeSeries { values, .. } => assert!(values.is_empty()),
        _ => panic!("Expected TimeSeries value"),
    }
    assert!(matches!(inner.query_by_name("g").unwrap().value, MetricValue::Gauge(7)));
}

#[test]
fn timestamps_are_stored_as_given() {
    let store = ArcStore::new();
    let t = UtcTimestamp { secs: 1_700_000_000, nanos: 5 };
    store.push_timestamp("t", tags_of(&[]), t).unwrap();
    assert!(matches!(store.query_by_name("t").unwrap().value, MetricValue::Timestamp(x) if x == t));
    assert!(store.tick().is_ok());
}

#[test]
fn tag_filters_compare_tag_sets() {
    let mut inner = StoreInner::new();
    inner.push_counter("a", tags_of(&["x", "y"]), 1).unwrap();
    inner.push_counter("b", tags_of(&["y", "z"]), 2).unwrap();
    inner.push_counter("c", tags_of(&["w"]), 3).unwrap();

    let all = TagFilter::all_of(tags_of(&["y", "x"]));
    let names: Vec<String> = inner.query_with_filter(&all).into_iter().map(|m| m.name).collect();
    assert_eq!(names, vec!["a".to_string()]);

    // `any_of` keeps the metrics that share no tag with the filter.
    let any = TagFilter::any_of(tags_of(&["y"]));
    let names: Vec<String> = inner.query_with_filter(&any).into_iter().map(|m| m.name).collect();
    assert_eq!(names, vec!["c".to_string()]);

    let m = inner.query_by_name("b").unwrap();
    assert!(TagFilter::all_of(tags_of(&[])).matches(&m));
    assert!(!NameFilter::new("a").matches(&m));
}

#[test]
fn select_keeps_flagged_metrics_in_order() {
    let mut inner = StoreInner::new();
    inner.push_counter("a", tags_of(&[]), 1).unwrap();
    inner.push_counter("b", tags_of(&[]), 2).unwrap();
    inner.push_counter("c", tags_of(&[]), 3).unwrap();
    let picked: Vec<String> =
        inner.select(&vec![true, false, true]).into_iter().map(|m| m.name).collect();
    assert_eq!(picked, vec!["a".to_string(), "c".to_string()]);
}

#[test]
fn a_mismatch_reports_the_value_found() {
    let mut inner = StoreInner::new();
    inner.push_message("m", tags_of(&[]), "hi".to_string()).unwrap();
    let epoch = UtcTimestamp { secs: 0, nanos: 0 };
    inner.push_timestamp("t", tags_of(&[]), epoch).unwrap();
    match inner.push_to_timeseries("m", tags_of(&[]), 1) {
        Err(StoreError::MetricTypeMismatch { expected, found: MetricValue::Message(m) }) => {
            assert_eq!(expected, "TimeSeries");
            assert_eq!(m, "hi");
        }
        other => panic!("unexpected {other:?}"),
    }
    assert!(matches!(
        inner.push_to_timeseries("t", tags_of(&[]), 1),
        Err(StoreError::MetricTypeMismatch { found: MetricValue::Timestamp(x), .. }) if x == epoch
    ));
}

#[test]
fn a_mismatch_leaves_the_store_unchanged() {
    let store = ArcStore::new();
    store.push_counter("m", tags_of(&[]), 1.0f64.to_bits()).unwrap();
    assert!(store.push_to_timeseries("m", tags_of(&["x"]), 2.0f64.to_bits()).is_err());
    let m = store.query_by_name("m").unwrap();
    assert!(m.tags.is_empty());
    assert!(matches!(m.value, MetricValue::Counter(bits) if f64::from_bits(bits) == 1.0));
}

#[test]
fn tag_filter_query_keeps_exactly_the_matches() {
    let mut inner = StoreInner::new();
    inner.push_counter("a", tags_of(&["x", "y"]), 1).unwrap();
    inner.push_counter("b", tags_of(&["z"]), 2).unwrap();
    inner.push_counter("c", tags_of(&["x"]), 3).unwrap();
    let all = inner.query_with_filter(&TagFilter::all_of(tags_of(&["x"])));
    let names: Vec<String> = all.iter().map(|m| m.name.clone()).collect();
    assert_eq!(names, vec!["a".to_string(), "c".to_string()]);
    let none_x = inner.query_with_filter(&TagFilter::any_of(tags_of(&["x"])));
    assert_eq!(none_x.len(), 1);
    assert_eq!(none_x[0].name, "b");
}

#[test]
fn new_series_and_ticks_use_the_given_time() {
    let mut inner = StoreInner::new();
    let t0 = UtcTimestamp { secs: 10, nanos: 0 };
    inner.push_to_timeseries_at("ts", tags_of(&["x"]), 5, t0).unwrap();
    inner.push_gauge("g", tags_of(&[]), 7).unwrap();
    match inner.query_by_name("ts").unwrap().value {
        MetricValue::TimeSeries { values, start_ts } => {
            assert_eq!(values, vec![5]);
            assert_eq!(start_ts, t0);
        }
        other => panic!("unexpected {other:?}"),
    }
    let t1 = UtcTimestamp { secs: 20, nanos: 3 };
    inner.tick_at(t1);
    match inner.query_by_name("ts").unwrap().value {
        MetricValue::TimeSeries { values, start_ts } => {
            assert!(values.is_empty());
            assert_eq!(start_ts, t1);
        }
        other => panic!("unexpected {other:?}"),
    }
    assert!(matches!(inner.query_by_name("g").unwrap().value, MetricValue::Gauge(7)));
}

#[test]
fn a_tag_given_twice_is_kept_once() {
    let mut inner = StoreInner::new();
    inner.push_counter("c", tags_of(&["a", "b", "a"]), 1).unwrap();
    assert_eq!(inner.query_by_name("c").unwrap().tags, tags_of(&["a", "b"]));
}
