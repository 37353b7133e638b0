use log_experiments::channel::{Channel, WorkerAction};
use log_experiments::config::{
    non_empty, options_from_env, setup, LoggingOptions, SetupError, SinkKind, QUEUE_CAPACITY,
};
use log_experiments::filter::{split, LevelFilter};
use log_experiments::level::Severity;
use log_experiments::logger::{Logger, Phase, Step};
use log_experiments::record::{Field, Record};
use log_experiments::tee::DrainTee;

fn rec(level: Severity, scope: &str, message: &str) -> Record {
    Record::new(level, scope.to_string(), message.to_string(), Vec::new())
}

fn info_filter() -> LevelFilter {
    LevelFilter::parse("info")
}

/// Runs the worker of sink `i` until its queue is empty, returning the
/// messages it was handed.
fn drain(logger: &mut Logger, i: usize) -> Vec<String> {
    let mut out = Vec::new();
    while let WorkerAction::Deliver(r) = logger.worker_step(i) {
        out.push(r.message.clone());
    }
    out
}

#[test]
fn severity_order_follows_slog() {
    assert_eq!(Severity::Critical.as_index(), 1);
    assert_eq!(Severity::Info.as_index(), 4);
    assert_eq!(Severity::Trace.as_index(), 6);
    assert!(Severity::Error.passes_threshold(4));
    assert!(Severity::Info.passes_threshold(4));
    assert!(!Severity::Debug.passes_threshold(4));
    assert!(!Severity::Critical.passes_threshold(0));
}

#[test]
fn split_keeps_empty_pieces() {
    assert_eq!(split("a,,b", ','), vec!["a".to_string(), String::new(), "b".to_string()]);
    assert_eq!(split("", ','), vec![String::new()]);
    assert_eq!(split("x=", '='), vec!["x".to_string(), String::new()]);
}

#[test]
fn filter_parses_global_and_scoped_directives() {
    let f = LevelFilter::parse("info,log_experiments::inner=error");
    assert_eq!(f.default, 4);
    assert_eq!(f.overrides.len(), 1);
    assert_eq!(f.overrides[0].scope, "log_experiments::inner");
    assert_eq!(f.overrides[0].threshold, 2);
    assert!(f.should_emit("log_experiments", Severity::Info));
    assert!(!f.should_emit("log_experiments::inner", Severity::Info));
    assert!(f.should_emit("log_experiments::inner::deep", Severity::Error));
    assert!(!f.should_emit("other", Severity::Debug));
}

#[test]
fn filter_level_names_any_case_and_short() {
    assert_eq!(LevelFilter::parse("warn").default, 3);
    assert_eq!(LevelFilter::parse("WARNING").default, 3);
    assert_eq!(LevelFilter::parse("crit").default, 1);
    assert_eq!(LevelFilter::parse("Trace").default, 6);
    assert_eq!(LevelFilter::parse("off").default, 0);
}

#[test]
fn filter_without_directives_lets_errors_through() {
    let f = LevelFilter::parse("");
    assert_eq!(f.default, 2);
    assert!(f.overrides.is_empty());
    assert!(f.should_emit("any", Severity::Error));
    assert!(!f.should_emit("any", Severity::Warning));
}

#[test]
fn filter_scoped_only_shuts_other_scopes() {
    let f = LevelFilter::parse("app");
    assert_eq!(f.default, 0);
    assert!(f.should_emit("app::db", Severity::Trace));
    assert!(!f.should_emit("lib", Severity::Critical));
    let g = LevelFilter::parse("app=");
    assert_eq!(g.overrides[0].threshold, 6);
}

#[test]
fn filter_skips_malformed_directives() {
    let f = LevelFilter::parse("a=bogus,b=c=d,debug");
    assert_eq!(f.default, 5);
    assert!(f.overrides.is_empty());
}

#[test]
fn filter_longest_prefix_wins_and_last_among_equals() {
    let f = LevelFilter::parse("warn,a=error,a::b=trace,a=debug");
    assert_eq!(f.threshold_for("a::b::c"), 6);
    assert_eq!(f.threshold_for("a::x"), 5);
    assert_eq!(f.threshold_for("z"), 3);
}

#[test]
fn channel_is_fifo_and_counts_drops() {
    let mut c = Channel::new(2);
    assert!(c.enqueue(rec(Severity::Info, "s", "one")));
    assert!(c.enqueue(rec(Severity::Info, "s", "two")));
    assert!(!c.enqueue(rec(Severity::Info, "s", "three")));
    assert_eq!(c.dropped(), 1);
    assert_eq!(c.len(), 2);
    match c.worker_step() {
        WorkerAction::Deliver(r) => assert_eq!(r.message, "one"),
        _ => panic!("expected a record"),
    }
    match c.worker_step() {
        WorkerAction::Deliver(r) => assert_eq!(r.message, "two"),
        _ => panic!("expected a record"),
    }
    assert!(matches!(c.worker_step(), WorkerAction::Wait));
}

#[test]
fn channel_close_is_idempotent_and_ends_worker() {
    let mut c = Channel::new(4);
    assert!(c.enqueue(rec(Severity::Info, "s", "last")));
    c.close();
    c.close();
    assert!(c.is_closed());
    assert!(!c.enqueue(rec(Severity::Info, "s", "late")));
    assert_eq!(c.dropped(), 0);
    assert!(matches!(c.worker_step(), WorkerAction::Deliver(_)));
    assert!(matches!(c.worker_step(), WorkerAction::Exit));
}

#[test]
fn channel_counts_each_failure_once() {
    let mut c = Channel::new(4);
    c.report(false);
    c.report(true);
    c.report(false);
    assert_eq!(c.failed(), 2);
}

#[test]
fn record_duplicate_keeps_every_field() {
    let r = Record::new(
        Severity::Error,
        "app".to_string(),
        "boom".to_string(),
        vec![Field::new("request_id".to_string(), "abc".to_string())],
    );
    let d = r.duplicate();
    assert_eq!(d.level, Severity::Error);
    assert_eq!(d.scope, "app");
    assert_eq!(d.message, "boom");
    assert_eq!(d.fields.len(), 1);
    assert_eq!(d.fields[0].key, "request_id");
    assert_eq!(d.fields[0].value, "abc");
}

#[test]
fn tee_hands_one_copy_to_each_sink() {
    let mut tee = DrainTee::new(info_filter());
    for _ in 0..3 {
        tee.push(8);
    }
    assert!(tee.submit(&rec(Severity::Warning, "app", "hello")));
    for i in 0..3 {
        assert_eq!(tee.pending(i), 1);
        match tee.worker_step(i) {
            WorkerAction::Deliver(r) => {
                assert_eq!(r.message, "hello");
                assert_eq!(r.level, Severity::Warning);
            }
            _ => panic!("expected a record"),
        }
        assert_eq!(tee.pending(i), 0);
    }
}

#[test]
fn tee_filters_before_fan_out() {
    let mut tee = DrainTee::new(info_filter());
    tee.push(8);
    tee.push(8);
    assert!(!tee.submit(&rec(Severity::Debug, "app", "quiet")));
    assert_eq!(tee.pending(0), 0);
    assert_eq!(tee.pending(1), 0);
    assert_eq!(tee.dropped(0), 0);
}

#[test]
fn passing_records_reach_every_sink_in_order() {
    let mut logger = Logger::new(info_filter());
    logger.add_sink(16, false);
    logger.add_sink(16, false);
    assert!(logger.activate());
    let levels = [Severity::Info, Severity::Debug, Severity::Error, Severity::Trace, Severity::Warning];
    for (k, l) in levels.iter().enumerate() {
        logger.emit(&rec(*l, "app", &format!("m{}", k)));
    }
    for i in 0..2 {
        assert_eq!(drain(&mut logger, i), vec!["m0", "m2", "m4"]);
    }
}

#[test]
fn failing_sink_does_not_affect_others() {
    let mut logger = Logger::new(info_filter());
    logger.add_sink(16, false);
    logger.add_sink(16, false);
    logger.activate();
    for k in 0..3 {
        logger.emit(&rec(Severity::Error, "app", &format!("e{}", k)));
    }
    while let WorkerAction::Deliver(_) = logger.worker_step(0) {
        logger.report(0, false);
    }
    while let WorkerAction::Deliver(_) = logger.worker_step(1) {
        logger.report(1, true);
    }
    assert_eq!(logger.failed(0), 3);
    assert_eq!(logger.failed(1), 0);
    logger.emit(&rec(Severity::Error, "app", "after"));
    assert_eq!(drain(&mut logger, 1), vec!["after"]);
}

#[test]
fn full_sink_drops_without_blocking_others() {
    let mut logger = Logger::new(info_filter());
    logger.add_sink(1, false);
    logger.add_sink(16, false);
    logger.activate();
    for k in 0..5 {
        assert!(logger.emit(&rec(Severity::Info, "app", &format!("r{}", k))));
    }
    assert_eq!(logger.pending(0), 1);
    assert_eq!(logger.dropped(0), 4);
    assert_eq!(logger.pending(1), 5);
    assert_eq!(logger.dropped(1), 0);
}

#[test]
fn teardown_twice_is_teardown_once() {
    let mut logger = Logger::new(info_filter());
    logger.add_sink(8, false);
    logger.add_sink(8, true);
    logger.add_sink(8, false);
    logger.activate();
    let steps = logger.teardown();
    assert_eq!(
        steps,
        vec![Step::Drain(0), Step::Drain(1), Step::Drain(2), Step::Release(1)]
    );
    assert_eq!(logger.phase(), Phase::ShuttingDown);
    assert!(logger.teardown().is_empty());
    logger.finish();
    assert_eq!(logger.phase(), Phase::Terminated);
    assert!(logger.teardown().is_empty());
    logger.finish();
    assert_eq!(logger.phase(), Phase::Terminated);
}

#[test]
fn emit_outside_active_is_a_no_op() {
    let mut logger = Logger::new(info_filter());
    logger.add_sink(8, false);
    assert!(!logger.emit(&rec(Severity::Error, "app", "early")));
    logger.activate();
    assert!(!logger.add_sink(8, false));
    assert_eq!(logger.sink_count(), 1);
    logger.teardown();
    assert!(!logger.emit(&rec(Severity::Error, "app", "late")));
    assert_eq!(logger.pending(0), 0);
    assert!(matches!(logger.worker_step(0), WorkerAction::Exit));
}

#[test]
fn terminal_only_delivers_error_once_with_context() {
    let mut plan = setup(LoggingOptions::default()).ok().unwrap();
    assert_eq!(plan.sinks, vec![SinkKind::Terminal]);
    let logger = &mut plan.logger;
    logger.activate();
    assert!(!logger.emit(&rec(Severity::Debug, "app", "hidden")));
    assert_eq!(logger.pending(0), 0);
    let r = Record::new(
        Severity::Error,
        "app".to_string(),
        "boom".to_string(),
        vec![Field::new("request_id".to_string(), "abc".to_string())],
    );
    assert!(logger.emit(&r));
    let mut seen = Vec::new();
    while let WorkerAction::Deliver(d) = logger.worker_step(0) {
        seen.push(d);
    }
    assert_eq!(seen.len(), 1);
    assert_eq!(seen[0].message, "boom");
    assert_eq!(seen[0].fields.len(), 1);
    assert_eq!(seen[0].fields[0].key, "request_id");
    assert_eq!(seen[0].fields[0].value, "abc");
}

#[test]
fn two_sinks_see_the_same_thousand_records() {
    let mut plan = setup(LoggingOptions {
        graylog: Some("localhost:12201".to_string()),
        ..LoggingOptions::default()
    })
    .ok()
    .unwrap();
    assert_eq!(plan.sinks, vec![SinkKind::Terminal, SinkKind::Collector]);
    let logger = &mut plan.logger;
    logger.activate();
    let mut seen: Vec<Vec<String>> = vec![Vec::new(), Vec::new()];
    for round in 0..100 {
        for caller in 0..10 {
            logger.emit(&rec(Severity::Info, "app", &format!("c{}-{}", caller, round)));
        }
        for (i, s) in seen.iter_mut().enumerate() {
            s.extend(drain(logger, i));
        }
    }
    let steps = logger.teardown();
    assert_eq!(steps, vec![Step::Drain(0), Step::Drain(1)]);
    for (i, s) in seen.iter_mut().enumerate() {
        s.extend(drain(logger, i));
        assert!(matches!(logger.worker_step(i), WorkerAction::Exit));
        assert_eq!(logger.dropped(i), 0);
    }
    assert_eq!(seen[0].len(), 1000);
    assert_eq!(seen[0], seen[1]);
    logger.finish();
}

#[test]
fn setup_plans_every_configured_sink() {
    let plan = setup(LoggingOptions {
        version: Some("1.2.3".to_string()),
        environment: Some("dev".to_string()),
        filters: Some("info,log_experiments::inner=error".to_string()),
        graylog: Some("localhost:12201".to_string()),
        sentry: Some("http://185b7a7e069f4ef0983c2467e79683b1@localhost:9001/1".to_string()),
    })
    .ok()
    .unwrap();
    assert_eq!(
        plan.sinks,
        vec![SinkKind::Terminal, SinkKind::Collector, SinkKind::ErrorTracker]
    );
    assert!(plan.tracker.is_some());
    assert_eq!(plan.collector.as_deref(), Some("localhost:12201"));
    assert_eq!(plan.release.as_deref(), Some("1.2.3"));
    assert_eq!(plan.context.len(), 2);
    assert_eq!(plan.context[0].key, "version");
    assert_eq!(plan.context[1].value, "dev");
    assert_eq!(plan.logger.phase(), Phase::Uninitialized);
    assert_eq!(plan.logger.sink_count(), 3);
    let mut logger = plan.logger;
    let steps = logger.teardown();
    assert_eq!(
        steps,
        vec![Step::Drain(0), Step::Drain(1), Step::Drain(2), Step::Release(2)]
    );
}

#[test]
fn setup_rejects_an_invalid_dsn() {
    let r = setup(LoggingOptions {
        sentry: Some("not a dsn".to_string()),
        ..LoggingOptions::default()
    });
    assert!(matches!(r, Err(SetupError::InvalidSentryDsn)));
    let r = setup(LoggingOptions {
        sentry: Some("http://localhost:9001/1".to_string()),
        ..LoggingOptions::default()
    });
    assert!(matches!(r, Err(SetupError::InvalidSentryDsn)));
}

#[test]
fn setup_uses_default_filters() {
    let mut plan = setup(LoggingOptions::default()).ok().unwrap();
    assert_eq!(QUEUE_CAPACITY, 128);
    plan.logger.activate();
    assert!(plan.logger.emit(&rec(Severity::Info, "x", "i")));
    assert!(!plan.logger.emit(&rec(Severity::Debug, "x", "d")));
}

#[test]
fn env_values_empty_counts_as_absent() {
    assert_eq!(non_empty(Some(String::new())), None);
    assert_eq!(non_empty(Some("v".to_string())), Some("v".to_string()));
    assert_eq!(non_empty(None), None);
    let o = options_from_env(
        Some("0.1.0".to_string()),
        Some(String::new()),
        None,
        Some("localhost:12201".to_string()),
        Some(String::new()),
    );
    assert_eq!(o.version.as_deref(), Some("0.1.0"));
    assert_eq!(o.filters, None);
    assert_eq!(o.environment.as_deref(), Some("unknown"));
    assert_eq!(o.graylog.as_deref(), Some("localhost:12201"));
    assert_eq!(o.sentry, None);
    let o = options_from_env(None, None, Some("dev".to_string()), None, None);
    assert_eq!(o.environment.as_deref(), Some("dev"));
}
