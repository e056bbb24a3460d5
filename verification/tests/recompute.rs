use liquid_witness::{
    diff_claim, holder_totals_fit, normalize_holders, HolderAmount, IssuerClaim, ObservedState,
    RecomputeError, Verdict,
};

fn claim() -> IssuerClaim {
    IssuerClaim {
        asset_id: "01".repeat(32),
        total_supply: 100,
        holders: vec![
            HolderAmount {
                category: "qualified".to_string(),
                amount: 80,
            },
            HolderAmount {
                category: "treasury".to_string(),
                amount: 20,
            },
        ],
    }
}

fn observed(complete: bool, demo: bool) -> ObservedState {
    ObservedState {
        asset_id: "01".repeat(32),
        total_supply: 100,
        holders: vec![
            HolderAmount {
                category: "treasury".to_string(),
                amount: 20,
            },
            HolderAmount {
                category: "qualified".to_string(),
                amount: 80,
            },
        ],
        complete,
        demo,
        source: "fixture".to_string(),
        live_evidence: None,
    }
}

fn holder(category: &str, amount: u64) -> HolderAmount {
    HolderAmount {
        category: category.to_string(),
        amount,
    }
}

#[test]
fn verified_when_complete_observation_matches_claim() {
    let result = diff_claim(&claim(), &observed(true, false)).unwrap();
    assert_eq!(result.verdict, Verdict::Verified);
    assert!(result.reasons.is_empty());
}

#[test]
fn mismatch_when_supply_or_distribution_differs() {
    let mut observed = observed(true, false);
    observed.total_supply = 99;
    observed.holders[0].amount = 19;
    let result = diff_claim(&claim(), &observed).unwrap();
    assert_eq!(result.verdict, Verdict::Mismatch);
    assert_eq!(result.reasons.len(), 3);
}

#[test]
fn incomplete_takes_precedence_over_mismatch() {
    let mut observed = observed(false, false);
    observed.total_supply = 99;
    let result = diff_claim(&claim(), &observed).unwrap();
    assert_eq!(result.verdict, Verdict::Incomplete);
}

#[test]
fn demo_is_not_promoted_to_verified() {
    let result = diff_claim(&claim(), &observed(true, true)).unwrap();
    assert_eq!(result.verdict, Verdict::Demo);
}

#[test]
fn mismatch_reasons_are_exact_and_ordered() {
    let mut observed = observed(true, false);
    observed.total_supply = 99;
    observed.holders[0].amount = 19;
    let result = diff_claim(&claim(), &observed).unwrap();
    assert_eq!(
        result.reasons,
        vec![
            "total supply mismatch: claimed 100, observed 99".to_string(),
            "holder category treasury mismatch: claimed 20, observed 19".to_string(),
            "holder category treasury mismatch: claimed 20, observed 19".to_string(),
        ]
    );
    assert_eq!(result.claimed_total_supply, 100);
    assert_eq!(result.observed_total_supply, 99);
}

#[test]
fn categories_on_one_side_only_are_reported_once_per_side() {
    let claim = IssuerClaim {
        asset_id: "aa".to_string(),
        total_supply: 10,
        holders: vec![holder("zeta", 4), holder("Alpha", 6)],
    };
    let observed = ObservedState {
        asset_id: "aa".to_string(),
        total_supply: 10,
        holders: vec![holder("zeta", 4), holder("beta", 6)],
        complete: true,
        demo: false,
        source: "replay".to_string(),
        live_evidence: None,
    };
    let result = diff_claim(&claim, &observed).unwrap();
    assert_eq!(result.verdict, Verdict::Mismatch);
    assert_eq!(
        result.reasons,
        vec![
            "holder category Alpha mismatch: claimed 6, observed 0".to_string(),
            "holder category beta mismatch: claimed 0, observed 6".to_string(),
        ]
    );
}

#[test]
fn duplicate_categories_are_summed_before_comparing() {
    let claim = IssuerClaim {
        asset_id: "aa".to_string(),
        total_supply: 10,
        holders: vec![holder("q", 10)],
    };
    let observed = ObservedState {
        asset_id: "aa".to_string(),
        total_supply: 10,
        holders: vec![holder("q", 3), holder("q", 7), holder("empty", 0)],
        complete: true,
        demo: false,
        source: "replay".to_string(),
        live_evidence: None,
    };
    let result = diff_claim(&claim, &observed).unwrap();
    assert_eq!(result.verdict, Verdict::Verified);
    assert!(result.reasons.is_empty());
}

#[test]
fn demo_and_incomplete_reasons_are_fixed_texts() {
    let demo = diff_claim(&claim(), &observed(false, true)).unwrap();
    assert_eq!(demo.verdict, Verdict::Demo);
    assert_eq!(
        demo.reasons,
        vec!["fixture-backed run; no live Liquid/LWK round trip was performed".to_string()]
    );
    let incomplete = diff_claim(&claim(), &observed(false, false)).unwrap();
    assert_eq!(
        incomplete.reasons,
        vec!["scan did not cover the full issuer claim".to_string()]
    );
}

#[test]
fn asset_id_mismatch_is_an_error() {
    let mut observed = observed(true, true);
    observed.asset_id = "02".to_string();
    let err = diff_claim(&claim(), &observed).unwrap_err();
    assert_eq!(
        err,
        RecomputeError::AssetIdMismatch {
            claim: "01".repeat(32),
            observed: "02".to_string(),
        }
    );
    assert_eq!(
        err.message(),
        format!(
            "claim asset id {} does not match observed asset id 02",
            "01".repeat(32)
        )
    );
}

#[test]
fn normalized_holders_are_sorted_and_summed() {
    let hs = vec![
        holder("treasury", 5),
        holder("Zed", 1),
        holder("é", 2),
        holder("treasury", 6),
        holder("a", 0),
    ];
    let norm = normalize_holders(&hs);
    let got: Vec<(String, u64)> = norm
        .iter()
        .map(|e| (e.category.iter().collect::<String>(), e.total))
        .collect();
    assert_eq!(
        got,
        vec![
            ("Zed".to_string(), 1),
            ("a".to_string(), 0),
            ("treasury".to_string(), 11),
            ("é".to_string(), 2),
        ]
    );
}

#[test]
fn holder_totals_fit_detects_overflow() {
    assert!(holder_totals_fit(&[holder("x", u64::MAX), holder("y", u64::MAX)]));
    assert!(!holder_totals_fit(&[holder("x", u64::MAX), holder("x", 1)]));
    assert!(holder_totals_fit(&[]));
}

#[test]
fn verdict_does_not_depend_on_holder_order() {
    let mut reordered = claim();
    reordered.holders.reverse();
    let a = diff_claim(&claim(), &observed(true, false)).unwrap();
    let b = diff_claim(&reordered, &observed(true, false)).unwrap();
    assert_eq!(a, b);
}

#[test]
fn splitting_an_entry_changes_nothing() {
    let mut split = claim();
    split.holders[0].amount = 30;
    split.holders.push(holder("qualified", 50));
    let mut observed = observed(true, false);
    observed.holders[0].amount = 21;
    let a = diff_claim(&claim(), &observed).unwrap();
    let b = diff_claim(&split, &observed).unwrap();
    assert_eq!(a, b);
    assert_eq!(a.verdict, Verdict::Mismatch);
}

#[test]
fn source_and_live_evidence_do_not_affect_the_outcome() {
    let mut other = observed(true, false);
    other.source = "elsewhere".to_string();
    other.live_evidence = Some(liquid_witness::LiveEvidence {
        endpoint: "e".to_string(),
        tx_count: 3,
        txid: None,
        gaid_redacted: None,
    });
    assert_eq!(
        diff_claim(&claim(), &observed(true, false)).unwrap(),
        diff_claim(&claim(), &other).unwrap()
    );
}
