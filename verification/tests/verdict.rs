use liquid_witness::{scan_verdict, ObservedState, Verdict};

#[test]
fn verdict_exit_codes_are_audit_pipeline_stable() {
    assert_eq!(Verdict::Verified.exit_code().0, 0);
    assert_eq!(Verdict::Mismatch.exit_code().0, 1);
    assert_eq!(Verdict::Incomplete.exit_code().0, 2);
    assert_eq!(Verdict::Demo.exit_code().0, 3);
}

#[test]
fn verdict_labels_are_upper_case() {
    assert_eq!(Verdict::Verified.label(), "VERIFIED");
    assert_eq!(Verdict::Mismatch.label(), "MISMATCH");
    assert_eq!(Verdict::Incomplete.label(), "INCOMPLETE");
    assert_eq!(Verdict::Demo.label(), "DEMO");
}

fn state(complete: bool, demo: bool) -> ObservedState {
    ObservedState {
        asset_id: "aa".to_string(),
        total_supply: 0,
        holders: vec![],
        complete,
        demo,
        source: "s".to_string(),
        live_evidence: None,
    }
}

#[test]
fn scan_verdict_follows_the_evidence_boundary() {
    assert_eq!(scan_verdict(&state(true, true)), Verdict::Demo);
    assert_eq!(scan_verdict(&state(false, true)), Verdict::Demo);
    assert_eq!(scan_verdict(&state(true, false)), Verdict::Verified);
    assert_eq!(scan_verdict(&state(false, false)), Verdict::Incomplete);
}
