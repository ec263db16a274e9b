use corepy_runtime::profiler::{get_context, set_context, ProfileContext, Profiler, ProfileScope};

#[test]
fn test_profiler_enable_disable() {
    let mut profiler = Profiler::new();
    assert!(!profiler.is_enabled());

    profiler.enable();
    assert!(profiler.is_enabled());

    profiler.disable();
    assert!(!profiler.is_enabled());
}

#[test]
fn test_record_operation() {
    let mut profiler = Profiler::new();
    profiler.enable();

    profiler.record_operation("test_op".to_string(), "CPU".to_string(), 100, 1000, 2000, None);

    assert_eq!(profiler.event_count(), 1);

    let events = profiler.get_events();
    assert_eq!(events[0].operation, "test_op");
    assert_eq!(events[0].duration_us(), 1000);
}

#[test]
fn test_profiler_when_disabled() {
    let mut profiler = Profiler::new();
    // Profiling disabled by default

    profiler.record_operation("test_op".to_string(), "CPU".to_string(), 100, 1000, 2000, None);

    // Should not record when disabled
    assert_eq!(profiler.event_count(), 0);
}

#[test]
fn test_clear() {
    let mut profiler = Profiler::new();
    profiler.enable();

    profiler.record_operation("test_op".to_string(), "CPU".to_string(), 100, 1000, 2000, None);

    assert_eq!(profiler.event_count(), 1);

    profiler.clear();
    assert_eq!(profiler.event_count(), 0);
}

#[test]
fn test_context_tracking() {
    let mut ctx = ProfileContext::new();
    set_context(&mut ctx, Some("test_context".to_string()));
    assert_eq!(get_context(&ctx), Some("test_context".to_string()));

    set_context(&mut ctx, None);
    assert_eq!(get_context(&ctx), None);
}

#[test]
fn test_generate_report() {
    let mut profiler = Profiler::new();
    profiler.enable();

    // Record multiple operations
    profiler.record_operation("add".to_string(), "CPU".to_string(), 100, 0, 1000, None);

    profiler.record_operation("add".to_string(), "CPU".to_string(), 200, 0, 2000, None);

    profiler.record_operation("mul".to_string(), "GPU".to_string(), 100, 0, 500, None);

    let report = profiler.generate_report(None);

    assert_eq!(report.operation_count, 2); // "add" and "mul"
    assert_eq!(report.total_time_us, 3500); // 1000 + 2000 + 500 us

    let add_metrics = report.get_operation("add").unwrap();
    assert_eq!(add_metrics.count, 2);
    assert_eq!(add_metrics.total_time_us, 3000);

    let mul_metrics = report.get_operation("mul").unwrap();
    assert_eq!(mul_metrics.count, 1);
    assert_eq!(mul_metrics.total_time_us, 500);
}

#[test]
fn profile_scope_records_one_event() {
    let mut profiler = Profiler::new();
    profiler.enable();

    let mut ctx = ProfileContext::new();
    set_context(&mut ctx, Some("section".to_string()));

    let scope = ProfileScope::new("scoped_op".to_string(), "CPU".to_string(), 100, &ctx);
    scope.finish(&mut profiler);

    assert_eq!(profiler.event_count(), 1);
    let events = profiler.get_events();
    assert_eq!(events[0].operation, "scoped_op");
    assert_eq!(events[0].backend, "CPU");
    assert_eq!(events[0].data_size, 100);
    assert_eq!(events[0].context, Some("section".to_string()));
    assert!(events[0].end_time_us >= events[0].start_time_us);
}

#[test]
fn profile_scope_discards_event_while_disabled() {
    let mut profiler = Profiler::new();
    let ctx = ProfileContext::new();
    let scope = ProfileScope::new("quiet".to_string(), "CPU".to_string(), 1, &ctx);
    scope.finish(&mut profiler);
    assert_eq!(profiler.event_count(), 0);
}

#[test]
fn report_filters_by_context() {
    let mut profiler = Profiler::new();
    profiler.enable();

    profiler.record_operation(
        "add".to_string(),
        "CPU".to_string(),
        10,
        0,
        100,
        Some("a".to_string()),
    );
    profiler.record_operation(
        "mul".to_string(),
        "CPU".to_string(),
        10,
        0,
        200,
        Some("b".to_string()),
    );
    profiler.record_operation("sub".to_string(), "CPU".to_string(), 10, 0, 400, None);

    let report = profiler.generate_report(Some("a"));
    assert_eq!(report.operation_count, 1);
    assert_eq!(report.total_time_us, 100);
    assert!(report.get_operation("add").is_some());
    assert!(report.get_operation("mul").is_none());
    assert!(report.get_operation("sub").is_none());

    // The filtered total is the percentage denominator: the one entry
    // carries all of it.
    assert_eq!(report.get_operation("add").unwrap().percent_total, 10000);
}

#[test]
fn report_totals_account_for_everything() {
    let mut profiler = Profiler::new();
    profiler.enable();
    profiler.record_operation("add".to_string(), "CPU".to_string(), 1, 0, 250, None);
    profiler.record_operation("mul".to_string(), "CPU".to_string(), 1, 0, 250, None);
    profiler.record_operation("add".to_string(), "GPU".to_string(), 1, 0, 500, None);

    let report = profiler.generate_report(None);
    let sum: u64 = report.operations.iter().map(|m| m.total_time_us).sum();
    assert_eq!(sum, report.total_time_us);
    let pct: u64 = report.operations.iter().map(|m| m.percent_total).sum();
    assert_eq!(pct, 10000); // 75% + 25%, in hundredths of a percent
}
