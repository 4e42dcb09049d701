use log_ingest::pipeline::{LineAction, Pipeline};
use log_ingest::stats::WriteOutcome;

const GOOD: &str = "{\"level\":\"info\",\"msg\":\"handled request\",\"ts\":1.5}";
const GOOD2: &str = "{\"level\":\"info\",\"msg\":\"handled request\",\"ts\":2.5}";

/// Feeds lines in; each matched line is taken as decoded; every write
/// completes at once with the outcome that `store` gives.
fn run(lines: &[&str], store: &dyn Fn() -> WriteOutcome) -> Pipeline {
    let mut p = Pipeline::new(50);
    for line in lines {
        match p.accept_line(line) {
            LineAction::Decode { .. } => {
                p.record_decoded(true);
                assert!(p.try_dispatch());
                p.complete(&store());
            }
            _ => {}
        }
    }
    p.finish_input();
    assert!(p.is_done());
    p
}

#[test]
fn scenario_one_good_one_malformed_one_untagged() {
    let lines = [GOOD, "{\"msg\":\"handled request\",", "{\"level\":\"info\",\"ts\":3.0}"];
    let p = run(&lines, &|| WriteOutcome::Inserted);
    assert_eq!(p.rows_processed(), 1);
    assert_eq!(p.rows_inserted(), 1);
    assert_eq!(p.decode_errors(), 1);
}

#[test]
fn scenario_store_fails_every_write() {
    let lines = [GOOD, GOOD2, "", GOOD];
    let p = run(&lines, &|| WriteOutcome::Failed("connection reset".to_string()));
    assert_eq!(p.rows_processed(), 3);
    assert_eq!(p.rows_inserted(), 0);
}

#[test]
fn replay_inserts_nothing() {
    let lines = [GOOD, "{\"msg\":\"other\"}", GOOD2];
    let first = run(&lines, &|| WriteOutcome::Inserted);
    let second = run(&lines, &|| WriteOutcome::AlreadyPresent);
    assert_eq!(first.rows_inserted(), 2);
    assert_eq!(second.rows_inserted(), 0);
    assert_eq!(second.rows_processed(), 2);
    assert_eq!(first.file_identity(), second.file_identity());
}

#[test]
fn processed_equals_records_after_drain() {
    let mut p = Pipeline::new(2);
    let lines = [GOOD, GOOD2, GOOD, "", "{\"msg\":\"other\"}", GOOD2];
    let mut outstanding = 0u32;
    for line in lines {
        if let LineAction::Decode { .. } = p.accept_line(line) {
            p.record_decoded(true);
            while !p.try_dispatch() {
                assert_eq!(p.in_flight(), 2);
                p.complete(&WriteOutcome::Inserted);
                outstanding -= 1;
            }
            outstanding += 1;
            assert!(p.in_flight() <= 2);
        }
    }
    p.finish_input();
    assert!(!p.is_done());
    while outstanding > 0 {
        p.complete(&WriteOutcome::Inserted);
        outstanding -= 1;
    }
    assert!(p.is_done());
    assert_eq!(p.records(), 4);
    assert_eq!(p.dispatched(), 4);
    assert_eq!(p.rows_processed(), 4);
}

#[test]
fn malformed_line_does_not_disturb_the_next() {
    let mut p = Pipeline::new(50);
    assert!(matches!(p.accept_line("{oops"), LineAction::DecodeError { .. }));
    assert_eq!(p.decode_errors(), 1);
    assert_eq!(p.file_identity(), None);
    assert!(matches!(p.accept_line(GOOD), LineAction::Decode { .. }));
    p.record_decoded(true);
    assert!(p.has_pending());
    assert!(p.try_dispatch());
    assert_eq!(p.dispatched(), 1);
}

#[test]
fn untagged_json_is_neither_error_nor_processed() {
    let mut p = Pipeline::new(50);
    assert!(matches!(p.accept_line("{\"level\":\"debug\"}"), LineAction::Skip));
    assert_eq!(p.decode_errors(), 0);
    assert_eq!(p.records(), 0);
    p.finish_input();
    assert!(p.is_done());
    assert_eq!(p.rows_processed(), 0);
}

#[test]
fn identity_comes_from_first_matched_line() {
    let mut p = Pipeline::new(50);
    assert!(matches!(p.accept_line("{\"msg\":\"other\"}"), LineAction::Skip));
    let id1 = match p.accept_line(GOOD) {
        LineAction::Decode { file_id, .. } => file_id,
        _ => panic!("expected a match"),
    };
    p.record_decoded(false);
    assert_eq!(p.decode_errors(), 1);
    let id2 = match p.accept_line(GOOD2) {
        LineAction::Decode { file_id, .. } => file_id,
        _ => panic!("expected a match"),
    };
    assert_eq!(id1, id2);
    let mut q = Pipeline::new(50);
    let idq = match q.accept_line(GOOD) {
        LineAction::Decode { file_id, .. } => file_id,
        _ => panic!("expected a match"),
    };
    assert_eq!(id1, idq);
}

#[test]
fn line_numbers_count_blank_lines() {
    let mut p = Pipeline::new(50);
    assert!(matches!(p.accept_line(""), LineAction::Skip));
    match p.accept_line("{bad") {
        LineAction::DecodeError { line_no, .. } => assert_eq!(line_no, 2),
        _ => panic!("expected a decode error"),
    }
    assert!(matches!(p.accept_line("{\"msg\":\"other\"}"), LineAction::Skip));
    match p.accept_line(GOOD) {
        LineAction::Decode { line_no, file_id } => {
            assert_eq!(line_no, 4);
            assert_eq!(file_id.len(), 64);
        }
        _ => panic!("expected a match"),
    }
    p.record_decoded(true);
    assert!(p.try_dispatch());
    assert_eq!(p.line_count(), 4);
}
