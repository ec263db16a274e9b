use corepy_runtime::metrics::{OperationEvent, OperationMetrics, ProfileReport};

#[test]
fn test_operation_event_duration() {
    let event = OperationEvent {
        operation: "test".to_string(),
        backend: "CPU".to_string(),
        data_size: 100,
        start_time_us: 1000,
        end_time_us: 2500,
        context: None,
    };

    assert_eq!(event.duration_us(), 1500);
}

#[test]
fn test_operation_metrics_from_events() {
    let events = vec![
        OperationEvent {
            operation: "add".to_string(),
            backend: "CPU".to_string(),
            data_size: 100,
            start_time_us: 0,
            end_time_us: 1000, // 1000 us
            context: None,
        },
        OperationEvent {
            operation: "add".to_string(),
            backend: "CPU".to_string(),
            data_size: 200,
            start_time_us: 0,
            end_time_us: 2000, // 2000 us
            context: None,
        },
    ];

    let metrics = OperationMetrics::from_events("add", &events, 10000);

    assert_eq!(metrics.count, 2);
    assert_eq!(metrics.total_time_us, 3000);
    assert_eq!(metrics.avg_time_us, 1500);
    assert_eq!(metrics.min_time_us, 1000);
    assert_eq!(metrics.max_time_us, 2000);
    assert_eq!(metrics.primary_backend, "CPU");
    assert_eq!(metrics.percent_total, 3000); // 3000/10000 = 30%
}

#[test]
fn metrics_of_no_events_read_unknown() {
    let metrics = OperationMetrics::from_events("idle", &[], 500);
    assert_eq!(metrics.count, 0);
    assert_eq!(metrics.total_time_us, 0);
    assert_eq!(metrics.avg_time_us, 0);
    assert_eq!(metrics.min_time_us, 0);
    assert_eq!(metrics.max_time_us, 0);
    assert_eq!(metrics.primary_backend, "unknown");
    assert_eq!(metrics.percent_total, 0);
}

#[test]
fn metrics_pick_dominant_backend() {
    let mk = |backend: &str, end: u64| OperationEvent {
        operation: "sum".to_string(),
        backend: backend.to_string(),
        data_size: 1,
        start_time_us: 0,
        end_time_us: end,
        context: None,
    };
    let events = vec![mk("GPU", 10), mk("CPU", 20), mk("CPU", 30)];
    let metrics = OperationMetrics::from_events("sum", &events, 60);
    assert_eq!(metrics.primary_backend, "CPU");
}

#[test]
fn event_duration_clamps_clock_regression() {
    let event = OperationEvent {
        operation: "t".to_string(),
        backend: "CPU".to_string(),
        data_size: 1,
        start_time_us: 500,
        end_time_us: 200,
        context: None,
    };
    assert_eq!(event.duration_us(), 0);
}

#[test]
fn report_metadata_identifies_session() {
    let report = ProfileReport::from_events(&[], None);
    assert_eq!(report.metadata.session_id.len(), 36);
    assert_eq!(report.metadata.version, "0.1.0");
    assert_eq!(report.metadata.context, None);
    assert_eq!(report.operation_count, 0);
    assert_eq!(report.total_time_us, 0);

    let filtered = ProfileReport::from_events(&[], Some("web"));
    assert_eq!(filtered.metadata.context, Some("web".to_string()));
}
