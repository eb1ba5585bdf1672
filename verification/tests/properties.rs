use available_enis::counts::{aggregate, StatusCounts};
use available_enis::deletion::{plan_deletion, summarize_deletion, DeleteAttempt, RunError};
use available_enis::model::{classify, EniRecord, StatusKey};

fn eni(id: Option<&str>, status: Option<&str>) -> EniRecord {
    EniRecord { id: id.map(|s| s.to_owned()), status: status.map(|s| s.to_owned()) }
}

fn total(c: &StatusCounts) -> usize {
    c.associated + c.attaching + c.available + c.detaching + c.in_use + c.unknown + c.absent
}

#[test]
fn classify_known_statuses() {
    assert_eq!(classify(&Some("associated".to_owned())), StatusKey::Associated);
    assert_eq!(classify(&Some("attaching".to_owned())), StatusKey::Attaching);
    assert_eq!(classify(&Some("available".to_owned())), StatusKey::Available);
    assert_eq!(classify(&Some("detaching".to_owned())), StatusKey::Detaching);
    assert_eq!(classify(&Some("in-use".to_owned())), StatusKey::InUse);
}

#[test]
fn classify_unrecognized_status_is_unknown() {
    assert_eq!(classify(&Some("pending".to_owned())), StatusKey::Unknown);
    assert_eq!(classify(&Some("".to_owned())), StatusKey::Unknown);
    assert_eq!(classify(&Some("AVAILABLE".to_owned())), StatusKey::Unknown);
}

#[test]
fn classify_absent_status_is_absent() {
    assert_eq!(classify(&None), StatusKey::Absent);
}

#[test]
fn counts_sum_to_list_length() {
    let enis = vec![
        eni(Some("eni-1"), Some("available")),
        eni(Some("eni-2"), Some("in-use")),
        eni(Some("eni-3"), Some("some-future-status")),
        eni(Some("eni-4"), None),
        eni(None, Some("available")),
        eni(Some("eni-6"), Some("attaching")),
    ];
    let c = aggregate(&enis);
    assert_eq!(total(&c), enis.len());
    assert_eq!(c.count(StatusKey::Available), 2);
    assert_eq!(c.count(StatusKey::Absent), 1);
    assert_eq!(c.available, 2);
    assert_eq!(c.in_use, 1);
    assert_eq!(c.unknown, 1);
    assert_eq!(c.absent, 1);
    assert_eq!(c.attaching, 1);
}

#[test]
fn counts_of_empty_list_are_zero() {
    let c = aggregate(&Vec::new());
    assert_eq!(total(&c), 0);
}

#[test]
fn counts_do_not_depend_on_order() {
    let forward = vec![
        eni(Some("eni-1"), Some("available")),
        eni(Some("eni-2"), Some("in-use")),
        eni(Some("eni-3"), Some("detaching")),
        eni(Some("eni-4"), None),
        eni(Some("eni-5"), Some("mystery")),
    ];
    let mut backward = forward.clone();
    backward.reverse();
    assert_eq!(aggregate(&forward), aggregate(&backward));
}

#[test]
fn plan_never_targets_non_available() {
    let enis = vec![
        eni(Some("eni-1"), Some("in-use")),
        eni(Some("eni-2"), Some("attaching")),
        eni(Some("eni-3"), Some("detaching")),
        eni(Some("eni-4"), Some("associated")),
        eni(Some("eni-5"), Some("strange")),
        eni(Some("eni-6"), None),
    ];
    let p = plan_deletion(&enis);
    assert!(p.targets.is_empty());
    assert_eq!(p.missing, 0);
}

#[test]
fn plan_targets_available_with_identifier() {
    let enis = vec![
        eni(Some("eni-1"), Some("available")),
        eni(Some("eni-2"), Some("in-use")),
        eni(Some("eni-3"), Some("available")),
    ];
    let p = plan_deletion(&enis);
    assert_eq!(p.targets, vec!["eni-1".to_owned(), "eni-3".to_owned()]);
    assert_eq!(p.missing, 0);
}

#[test]
fn plan_records_missing_identifier_without_blocking() {
    let enis = vec![
        eni(None, Some("available")),
        eni(Some("eni-2"), Some("available")),
    ];
    let p = plan_deletion(&enis);
    assert_eq!(p.targets, vec!["eni-2".to_owned()]);
    assert_eq!(p.missing, 1);
}

#[test]
fn summary_of_no_attempts_is_ok() {
    let r = summarize_deletion(0, &Vec::new());
    assert_eq!(r, Ok(()));
}

#[test]
fn summary_reports_missing_identifier() {
    let r = summarize_deletion(1, &Vec::new());
    assert_eq!(r, Err(RunError::MissingIdentifier));
}

#[test]
fn summary_keeps_last_failure() {
    let attempts = vec![
        DeleteAttempt { id: "eni-1".to_owned(), error: Some("throttled".to_owned()) },
        DeleteAttempt { id: "eni-2".to_owned(), error: None },
        DeleteAttempt { id: "eni-3".to_owned(), error: Some("not found".to_owned()) },
    ];
    let r = summarize_deletion(0, &attempts);
    assert_eq!(
        r,
        Err(RunError::ApiError { id: "eni-3".to_owned(), message: "not found".to_owned() })
    );
}

#[test]
fn summary_failure_outranks_missing_identifier() {
    let attempts = vec![
        DeleteAttempt { id: "eni-1".to_owned(), error: Some("denied".to_owned()) },
    ];
    let r = summarize_deletion(2, &attempts);
    assert_eq!(
        r,
        Err(RunError::ApiError { id: "eni-1".to_owned(), message: "denied".to_owned() })
    );
}

#[test]
fn error_descriptions() {
    assert_eq!(
        RunError::MissingIdentifier.describe(),
        "available ENI has no network_interface_id"
    );
    assert_eq!(
        RunError::ApiError { id: "eni-9".to_owned(), message: "denied".to_owned() }.describe(),
        "delete failed for eni-9: denied"
    );
}
