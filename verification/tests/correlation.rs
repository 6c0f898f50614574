use watch_watch::rules::{
    CorrelationError, CorrelationOperator, CorrelationRule, CorrelationState, Event, EventField,
    Rule, RuleCategory, Severity, Type,
};

fn field(name: &str, text: &str, string_value: Option<&str>) -> EventField {
    EventField {
        name: name.to_string(),
        text: text.to_string(),
        string_value: string_value.map(|s| s.to_string()),
    }
}

fn event_at(timestamp: &str, ip: &str) -> Event {
    Event {
        fields: vec![
            field("timestamp", &format!("\"{timestamp}\""), Some(timestamp)),
            field("remote_ip", &format!("\"{ip}\""), Some(ip)),
        ],
    }
}

fn rule(name: &str, operator: CorrelationOperator, threshold: usize, window_secs: u64) -> Rule {
    Rule {
        name: name.to_string(),
        severity: Severity::High,
        correlate: Some(CorrelationRule {
            operator,
            group_by: "remote_ip".to_string(),
            threshold,
            window_secs,
            sum_field: None,
            steps: None,
        }),
        category: RuleCategory::Recon,
    }
}

#[test]
fn severity_names() {
    assert_eq!(Severity::Low.to_str(), "Low");
    assert_eq!(Severity::Medium.to_str(), "Medium");
    assert_eq!(Severity::High.to_str(), "High");
    assert_eq!(Severity::Critical.to_str(), "Critical");
}

#[test]
fn check_kind_names() {
    assert_eq!(Type::TxQueue.as_str(), "TxQueue");
    assert_eq!(Type::PrivilegedPort.as_str(), "PrivilegedPort");
    assert_eq!(Type::Correlation.as_str(), "Correlation");
}

#[test]
fn new_state_is_empty() {
    let state = CorrelationState::new();
    assert!(state.windows.is_empty());
}

#[test]
fn rule_without_correlation_never_fires() {
    let mut state = CorrelationState::new();
    let mut r = rule("plain", CorrelationOperator::Count, 1, 60);
    r.correlate = None;
    let result = state.process(&r, "host", &event_at("2024-01-01T00:00:00Z", "10.0.0.1"));
    assert_eq!(result, Ok(false));
    assert!(state.windows.is_empty());
}

#[test]
fn missing_timestamp_is_an_error_and_changes_nothing() {
    let mut state = CorrelationState::new();
    let r = rule("scan", CorrelationOperator::Count, 1, 60);
    let no_time = Event { fields: vec![field("remote_ip", "\"10.0.0.1\"", Some("10.0.0.1"))] };
    assert_eq!(state.process(&r, "host", &no_time), Err(CorrelationError::MissingTimestamp));
    let not_a_string = Event { fields: vec![field("timestamp", "12", None)] };
    assert_eq!(state.process(&r, "host", &not_a_string), Err(CorrelationError::MissingTimestamp));
    let bad_text = event_at("yesterday", "10.0.0.1");
    assert_eq!(state.process(&r, "host", &bad_text), Err(CorrelationError::MissingTimestamp));
    assert!(state.windows.is_empty());
    assert_eq!(CorrelationError::MissingTimestamp.message(), "missing or invalid timestamp");
}

#[test]
fn count_fires_at_threshold() {
    let mut state = CorrelationState::new();
    let r = rule("burst", CorrelationOperator::Count, 3, 60);
    assert_eq!(state.process(&r, "h", &event_at("2024-01-01T00:00:00Z", "a")), Ok(false));
    assert_eq!(state.process(&r, "h", &event_at("2024-01-01T00:00:10Z", "a")), Ok(false));
    assert_eq!(state.process(&r, "h", &event_at("2024-01-01T00:00:20Z", "a")), Ok(true));
    assert_eq!(state.windows.len(), 1);
    assert_eq!(state.windows[0].entries.len(), 3);
    assert_eq!(state.windows[0].entries[0].timestamp_ms, 1_704_067_200_000);
}

#[test]
fn stale_entries_leave_the_window() {
    let mut state = CorrelationState::new();
    let r = rule("burst", CorrelationOperator::Count, 2, 60);
    assert_eq!(state.process(&r, "h", &event_at("2024-01-01T00:00:00Z", "a")), Ok(false));
    // 61 seconds later the first event is older than the 60-second window.
    assert_eq!(state.process(&r, "h", &event_at("2024-01-01T00:01:01Z", "a")), Ok(false));
    assert_eq!(state.windows[0].entries.len(), 1);
    // Exactly 60 seconds is still inside.
    assert_eq!(state.process(&r, "h", &event_at("2024-01-01T00:02:01Z", "a")), Ok(true));
    assert_eq!(state.windows[0].entries.len(), 2);
}

#[test]
fn entries_from_the_future_are_dropped() {
    let mut state = CorrelationState::new();
    let r = rule("burst", CorrelationOperator::Count, 2, 60);
    assert_eq!(state.process(&r, "h", &event_at("2024-01-01T00:10:00Z", "a")), Ok(false));
    // An earlier event makes the stored one look 2^64 - 600000 ms old.
    assert_eq!(state.process(&r, "h", &event_at("2024-01-01T00:00:00Z", "a")), Ok(false));
    assert_eq!(state.windows[0].entries.len(), 1);
    assert_eq!(state.windows[0].entries[0].timestamp_ms, 1_704_067_200_000);
}

#[test]
fn windows_are_separate_per_rule_and_group() {
    let mut state = CorrelationState::new();
    let a = rule("a", CorrelationOperator::Count, 2, 60);
    let b = rule("b", CorrelationOperator::Count, 2, 60);
    assert_eq!(state.process(&a, "h1", &event_at("2024-01-01T00:00:00Z", "x")), Ok(false));
    assert_eq!(state.process(&a, "h2", &event_at("2024-01-01T00:00:01Z", "x")), Ok(false));
    assert_eq!(state.process(&b, "h1", &event_at("2024-01-01T00:00:02Z", "x")), Ok(false));
    assert_eq!(state.windows.len(), 3);
    assert_eq!(state.process(&a, "h1", &event_at("2024-01-01T00:00:03Z", "x")), Ok(true));
    assert_eq!(state.windows.len(), 3);
}

#[test]
fn unique_counts_distinct_values() {
    let mut state = CorrelationState::new();
    let r = rule("spread", CorrelationOperator::Unique, 2, 60);
    assert_eq!(state.process(&r, "h", &event_at("2024-01-01T00:00:00Z", "10.0.0.1")), Ok(false));
    assert_eq!(state.process(&r, "h", &event_at("2024-01-01T00:00:01Z", "10.0.0.1")), Ok(false));
    assert_eq!(state.process(&r, "h", &event_at("2024-01-01T00:00:02Z", "10.0.0.2")), Ok(true));
}

#[test]
fn unique_ignores_events_without_the_field() {
    let mut state = CorrelationState::new();
    let r = rule("spread", CorrelationOperator::Unique, 1, 60);
    let bare = Event { fields: vec![field("timestamp", "\"2024-01-01T00:00:00Z\"", Some("2024-01-01T00:00:00Z"))] };
    assert_eq!(state.process(&r, "h", &bare), Ok(false));
    assert_eq!(state.process(&r, "h", &event_at("2024-01-01T00:00:01Z", "a")), Ok(true));
}

#[test]
fn sum_and_sequence_never_fire() {
    let mut state = CorrelationState::new();
    let s = rule("sum", CorrelationOperator::Sum, 0, 60);
    let q = rule("seq", CorrelationOperator::Sequence, 0, 60);
    assert_eq!(state.process(&s, "h", &event_at("2024-01-01T00:00:00Z", "a")), Ok(false));
    assert_eq!(state.process(&q, "h", &event_at("2024-01-01T00:00:00Z", "a")), Ok(false));
}

#[test]
fn timestamp_offsets_are_honoured() {
    let mut state = CorrelationState::new();
    let r = rule("burst", CorrelationOperator::Count, 1, 60);
    assert_eq!(state.process(&r, "h", &event_at("2024-01-01T01:00:00+01:00", "a")), Ok(true));
    assert_eq!(state.windows[0].entries[0].timestamp_ms, 1_704_067_200_000);
}

#[test]
fn missing_timestamp_wins_over_an_oversized_window() {
    let mut state = CorrelationState::new();
    let r = rule("huge", CorrelationOperator::Count, 1, u64::MAX);
    let no_time = Event { fields: vec![field("remote_ip", "\"10.0.0.1\"", Some("10.0.0.1"))] };
    assert_eq!(state.process(&r, "host", &no_time), Err(CorrelationError::MissingTimestamp));
    assert!(state.windows.is_empty());
}

#[test]
fn oversized_window_is_not_processed() {
    let mut state = CorrelationState::new();
    let r = rule("huge", CorrelationOperator::Count, 1, u64::MAX);
    assert_eq!(state.try_process(&r, "h", &event_at("2024-01-01T00:00:00Z", "a")), None);
    assert!(state.windows.is_empty());
    let no_time = Event { fields: vec![] };
    assert_eq!(
        state.try_process(&r, "h", &no_time),
        Some(Err(CorrelationError::MissingTimestamp))
    );
    let ok = rule("small", CorrelationOperator::Count, 1, 60);
    assert_eq!(state.try_process(&ok, "h", &event_at("2024-01-01T00:00:00Z", "a")), Some(Ok(true)));
    assert_eq!(state.windows.len(), 1);
}
