use mindlink::errors::AgentError;
use mindlink::exchange::{
    Command, ExchangeMachine, FailureKind, Outcome, Phase, ResilienceConfig, TransportEvent,
};
use mindlink::stream::{classify_segment, fallback_text, trim_segment, SegmentAction};

fn delta(content: &str) -> TransportEvent {
    TransportEvent::Data(format!(
        "{{\"choices\":[{{\"delta\":{{\"content\":\"{}\"}}}}]}}",
        content
    ))
}

fn done() -> TransportEvent {
    TransportEvent::Data("[DONE]".to_string())
}

fn machine(max_retries: u64, base_backoff_ms: u64) -> ExchangeMachine {
    ExchangeMachine::new(ResilienceConfig { max_retries, base_backoff_ms })
}

#[test]
fn stream_accumulates_fragments_in_order() {
    let mut m = machine(3, 1);
    assert!(matches!(m.step(&TransportEvent::Opened), Command::Progress));
    match m.step(&delta("Hel")) {
        Command::Emit(p) => assert_eq!(p, "Hel"),
        c => panic!("expected Emit, got {:?}", c),
    }
    match m.step(&delta("lo")) {
        Command::Emit(p) => assert_eq!(p, "lo"),
        c => panic!("expected Emit, got {:?}", c),
    }
    match m.step(&done()) {
        Command::Succeed(text) => assert_eq!(text, "Hello"),
        c => panic!("expected Succeed, got {:?}", c),
    }
    assert_eq!(m.retries, 0);
}

#[test]
fn malformed_segment_is_skipped_without_error() {
    let mut m = machine(3, 1);
    m.step(&TransportEvent::Opened);
    m.step(&delta("Hel"));
    assert!(matches!(
        m.step(&TransportEvent::Data("this is not a payload".to_string())),
        Command::Progress
    ));
    m.step(&delta("lo"));
    match m.step(&TransportEvent::Closed) {
        Command::Succeed(text) => assert_eq!(text, "Hello"),
        c => panic!("expected Succeed, got {:?}", c),
    }
}

#[test]
fn rate_limited_attempts_are_retried_and_discarded() {
    let mut m = machine(3, 100);
    m.step(&TransportEvent::Opened);
    m.step(&delta("DISCARDED"));
    match m.step(&TransportEvent::Failed(FailureKind::RateLimited)) {
        Command::WaitThenRetry(ms) => {
            assert!(ms >= 100, "backoff below base: {}", ms);
            assert!(ms < 100 + 250, "backoff above base plus jitter: {}", ms);
        },
        c => panic!("expected WaitThenRetry, got {:?}", c),
    }
    assert_eq!(m.retries, 1);
    m.step(&TransportEvent::Opened);
    m.step(&delta("ok"));
    match m.step(&done()) {
        Command::Succeed(text) => assert_eq!(text, "ok"),
        c => panic!("expected Succeed, got {:?}", c),
    }
    assert_eq!(m.retries, 1);
}

#[test]
fn second_retry_backs_off_longer() {
    let mut m = machine(5, 1000);
    m.step(&TransportEvent::Failed(FailureKind::RateLimited));
    match m.step(&TransportEvent::Failed(FailureKind::RateLimited)) {
        Command::WaitThenRetry(ms) => {
            assert!(ms >= 2000);
            assert!(ms < 2000 + 250);
        },
        c => panic!("expected WaitThenRetry, got {:?}", c),
    }
}

#[test]
fn budget_spent_demands_fallback() {
    let mut m = machine(2, 1);
    assert!(matches!(
        m.step(&TransportEvent::Failed(FailureKind::RateLimited)),
        Command::WaitThenRetry(_)
    ));
    assert!(matches!(
        m.step(&TransportEvent::Failed(FailureKind::RateLimited)),
        Command::WaitThenRetry(_)
    ));
    assert!(matches!(
        m.step(&TransportEvent::Failed(FailureKind::RateLimited)),
        Command::Fallback
    ));
    assert_eq!(m.retries, 2);
    assert!(matches!(m.phase, Phase::Finished(Outcome::NeedFallback)));
}

#[test]
fn transport_failure_is_fatal_at_once() {
    let mut m = machine(5, 1);
    m.step(&TransportEvent::Opened);
    match m.step(&TransportEvent::Failed(FailureKind::Transport)) {
        Command::Fail(FailureKind::Transport) => {},
        c => panic!("expected Fail, got {:?}", c),
    }
    assert_eq!(m.retries, 0);
    assert!(matches!(
        m.phase,
        Phase::Finished(Outcome::Fatal(FailureKind::Transport))
    ));
}

#[test]
fn sentinel_is_recognized_with_surrounding_whitespace() {
    let mut m = machine(1, 1);
    match m.step(&TransportEvent::Data("  [DONE] \r\n".to_string())) {
        Command::Succeed(text) => assert_eq!(text, ""),
        c => panic!("expected Succeed, got {:?}", c),
    }
}

#[test]
fn delta_without_content_is_skipped() {
    let payload = "{\"choices\":[{\"delta\":{\"role\":\"assistant\"}}]}";
    assert!(matches!(classify_segment(payload), SegmentAction::Skip));
}

#[test]
fn classify_extracts_delta_content() {
    let payload = "{\"choices\":[{\"delta\":{\"content\":\"Hi!\"}}]}";
    match classify_segment(payload) {
        SegmentAction::Append(p) => assert_eq!(p, "Hi!"),
        a => panic!("expected Append, got {:?}", a),
    }
    assert!(matches!(classify_segment("[DONE]"), SegmentAction::Finish));
    assert!(matches!(classify_segment("{\"nope\": 3}"), SegmentAction::Skip));
}

#[test]
fn trim_removes_edges_only() {
    assert_eq!(trim_segment("  a b\t\r\n"), "a b");
    assert_eq!(trim_segment(""), "");
    assert_eq!(trim_segment(" \t "), "");
    assert_eq!(trim_segment("x"), "x");
}

#[test]
fn trim_removes_unicode_whitespace() {
    assert_eq!(trim_segment("\u{a0}\u{2003}[DONE]\u{3000}\u{85}"), "[DONE]");
    let mut m = machine(1, 1);
    assert!(matches!(
        m.step(&TransportEvent::Data("\u{2028} [DONE] \u{202f}".to_string())),
        Command::Succeed(_)
    ));
}

#[test]
fn fallback_text_reads_message_content() {
    let body = "{\"choices\":[{\"message\":{\"role\":\"assistant\",\"content\":\"from fallback\"}}]}";
    assert_eq!(fallback_text(body).unwrap(), "from fallback");
    assert_eq!(fallback_text("{\"choices\":[]}").unwrap(), "");
}

#[test]
fn undecodable_fallback_body_is_fatal() {
    assert!(matches!(
        fallback_text("not json at all"),
        Err(AgentError::TransportFailure)
    ));
    assert!(matches!(fallback_text("{}"), Err(AgentError::TransportFailure)));
    assert!(matches!(
        fallback_text("{\"choices\":[{\"message\":{\"role\":\"assistant\",\"content\":7}}]}"),
        Err(AgentError::TransportFailure)
    ));
}

#[test]
fn finished_machine_ignores_further_events() {
    let mut m = machine(1, 1);
    m.step(&done());
    assert!(matches!(m.step(&delta("late")), Command::Progress));
    match &m.phase {
        Phase::Finished(Outcome::Streamed(text)) => assert_eq!(text, ""),
        p => panic!("expected Finished(Streamed), got {:?}", p),
    }
}
