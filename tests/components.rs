use log_ingest::admission::{AdmissionController, DEFAULT_LIMIT};
use log_ingest::decoder::{classify_line, is_handled_request, LineKind};
use log_ingest::identity::FileIdentityTagger;
use log_ingest::stats::{outcome_of_write, user_id_column, IngestionStats, WriteOutcome};

fn kind(line: &str) -> LineKind {
    classify_line(line).line_kind()
}

#[test]
fn blank_line_is_skipped() {
    assert_eq!(kind(""), LineKind::Blank);
}

#[test]
fn malformed_json_is_a_decode_error() {
    assert_eq!(kind("{\"msg\": \"handled request\""), LineKind::Malformed);
    assert_eq!(kind("not json at all"), LineKind::Malformed);
}

#[test]
fn other_messages_are_ignored() {
    assert_eq!(kind("{\"msg\":\"received request\"}"), LineKind::Ignored);
    assert_eq!(kind("{\"level\":\"info\"}"), LineKind::Ignored);
    assert_eq!(kind("{\"msg\":5}"), LineKind::Ignored);
    assert_eq!(kind("[1,2,3]"), LineKind::Ignored);
}

#[test]
fn handled_request_is_matched() {
    assert_eq!(kind("{\"level\":\"info\",\"msg\":\"handled request\"}"), LineKind::Matched);
}

#[test]
fn marker_comparison_is_exact() {
    assert!(is_handled_request(&"handled request".to_string()));
    assert!(!is_handled_request(&"handled requests".to_string()));
    assert!(!is_handled_request(&"Handled request".to_string()));
}

#[test]
fn identity_is_blake3_hex_of_first_line() {
    let mut t = FileIdentityTagger::new();
    assert_eq!(t.current(), None);
    let id = t.get_or_create("abc");
    assert_eq!(id, "6437b3ac38465133ffb63b75273a8db548c558465d79db03fd359c6cd5bd9d85");
    let again = t.get_or_create("something else");
    assert_eq!(again, id);
    assert_eq!(t.current(), Some(id));
}

#[test]
fn identity_differs_for_lines_differing_by_one_byte() {
    let mut a = FileIdentityTagger::new();
    let mut b = FileIdentityTagger::new();
    let ia = a.get_or_create("{\"msg\":\"handled request\",\"ts\":1}");
    let ib = b.get_or_create("{\"msg\":\"handled request\",\"ts\":2}");
    assert_ne!(ia, ib);
    assert_eq!(ia.len(), 64);
    assert!(ia.chars().all(|c| c.is_ascii_hexdigit() && !c.is_ascii_uppercase()));
}

#[test]
fn identity_same_for_same_first_line() {
    let mut a = FileIdentityTagger::new();
    let mut b = FileIdentityTagger::new();
    let ia = a.get_or_create("{\"msg\":\"handled request\"}");
    let ib = b.get_or_create("{\"msg\":\"handled request\"}");
    assert_eq!(a.get_or_create("x"), ia);
    assert_eq!(b.get_or_create("y"), ib);
    assert_eq!(ia, ib);
}

#[test]
fn admission_bounds_permits() {
    let mut c = AdmissionController::new(2);
    assert!(c.try_acquire());
    assert!(c.try_acquire());
    assert!(!c.try_acquire());
    assert_eq!(c.in_flight(), 2);
    c.release();
    assert!(c.try_acquire());
    assert_eq!(c.in_flight(), 2);
}

#[test]
fn admission_default_limit_is_fifty() {
    let mut c = AdmissionController::with_default_limit();
    assert_eq!(DEFAULT_LIMIT, 50);
    assert_eq!(c.limit(), 50);
    for _ in 0..50 {
        assert!(c.try_acquire());
    }
    assert!(!c.try_acquire());
    assert_eq!(c.in_flight(), 50);
}

#[test]
fn drain_waits_for_permits() {
    let mut c = AdmissionController::new(3);
    assert!(c.try_acquire());
    assert!(c.try_acquire());
    c.begin_drain();
    assert!(!c.is_drained());
    assert!(!c.try_acquire());
    c.release();
    assert!(!c.is_drained());
    c.release();
    assert!(c.is_drained());
}

#[test]
fn store_answer_maps_to_outcome() {
    assert!(matches!(outcome_of_write(Ok(1)), WriteOutcome::Inserted));
    assert!(matches!(outcome_of_write(Ok(0)), WriteOutcome::AlreadyPresent));
    match outcome_of_write(Err("gone".to_string())) {
        WriteOutcome::Failed(e) => assert_eq!(e, "gone"),
        _ => panic!("expected a failure"),
    }
}

#[test]
fn missing_user_id_is_empty_string() {
    assert_eq!(user_id_column(&None), "");
    assert_eq!(user_id_column(&Some("alice".to_string())), "alice");
}

#[test]
fn stats_count_every_outcome() {
    let mut s = IngestionStats::new();
    s.record(&WriteOutcome::Inserted);
    s.record(&WriteOutcome::AlreadyPresent);
    s.record(&WriteOutcome::Failed("x".to_string()));
    assert_eq!(s.rows_processed(), 3);
    assert_eq!(s.rows_inserted(), 1);
}
