use liquid_witness::{
    claim_hash, claim_json_bytes, diff_claim, digest_hex, example_bundle, CabBundle,
    HolderAmount, IssuerClaim, ObservedState, Verdict,
};

#[test]
fn cab_bundle_preserves_demo_boundary() {
    let claim = IssuerClaim {
        asset_id: "ab".repeat(32),
        total_supply: 5,
        holders: vec![HolderAmount {
            category: "issuer".to_string(),
            amount: 5,
        }],
    };
    let observed = ObservedState {
        asset_id: claim.asset_id.clone(),
        total_supply: 5,
        holders: claim.holders.clone(),
        complete: true,
        demo: true,
        source: "tests/fixtures/demo-observed-state.json".to_string(),
        live_evidence: None,
    };
    let diff = diff_claim(&claim, &observed).unwrap();
    let bundle = CabBundle::from_diff(
        &claim,
        observed,
        diff,
        "testnet".to_string(),
        "watch-only descriptor".to_string(),
    );

    assert_eq!(bundle.verdict, Verdict::Demo);
    assert_eq!(bundle.claim.claim_sha256, claim_hash(&claim));
    assert_eq!(bundle.evidence.mode, "DEMO");
}

fn demo_claim() -> IssuerClaim {
    IssuerClaim {
        asset_id: "ab".repeat(32),
        total_supply: 5,
        holders: vec![HolderAmount {
            category: "issuer".to_string(),
            amount: 5,
        }],
    }
}

#[test]
fn claim_json_is_compact_and_in_field_order() {
    let bytes = claim_json_bytes(&demo_claim());
    assert_eq!(
        String::from_utf8(bytes).unwrap(),
        format!(
            "{{\"asset_id\":\"{}\",\"total_supply\":5,\"holders\":[{{\"category\":\"issuer\",\"amount\":5}}]}}",
            "ab".repeat(32)
        )
    );
}

#[test]
fn claim_json_escapes_strings() {
    let claim = IssuerClaim {
        asset_id: "q\"\\\n\t\u{1}\u{1f}\u{7f}é".to_string(),
        total_supply: u64::MAX,
        holders: vec![],
    };
    let expected: &[u8] = b"{\"asset_id\":\"q\\\"\\\\\\n\\t\\u0001\\u001f\x7f\xc3\xa9\",\"total_supply\":18446744073709551615,\"holders\":[]}";
    assert_eq!(claim_json_bytes(&claim), expected.to_vec());
    assert_eq!(
        claim_hash(&claim),
        "4f75cf91f8633a0dbe727266a3a4ec21401eacb09f55e13e6b62b98d50208491"
    );
}

#[test]
fn claim_hash_is_sha256_of_canonical_json() {
    assert_eq!(
        claim_hash(&demo_claim()),
        "ad18f5ae1ababdfc3d5c3f9a8f9e5400ceafe5bf0dc9a2a597e6c975d13c7de8"
    );
    let claim = IssuerClaim {
        asset_id: "01".repeat(32),
        total_supply: 100,
        holders: vec![
            HolderAmount {
                category: "qualified".to_string(),
                amount: 80,
            },
            HolderAmount {
                category: "treasury".to_string(),
                amount: 20,
            },
        ],
    };
    assert_eq!(
        claim_hash(&claim),
        "0b956ae49b4caf4d4b57ea034959053a96afc0b3a69c6b45712e2bdd8ff06385"
    );
}

#[test]
fn digest_hex_is_lower_case_high_nibble_first() {
    assert_eq!(digest_hex(&[0x00, 0x0f, 0xa0, 0xff, 0x12]), "000fa0ff12");
    assert_eq!(digest_hex(&[]), "");
}

#[test]
fn bundle_records_claim_and_evidence() {
    let claim = demo_claim();
    let observed = ObservedState {
        asset_id: claim.asset_id.clone(),
        total_supply: 4,
        holders: vec![],
        complete: true,
        demo: false,
        source: "replay".to_string(),
        live_evidence: None,
    };
    let diff = diff_claim(&claim, &observed).unwrap();
    let bundle = CabBundle::from_diff_at(
        &claim,
        observed.clone(),
        diff.clone(),
        "testnet".to_string(),
        None,
    );
    assert_eq!(bundle.cab_version, "0.1-compatible");
    assert_eq!(bundle.subject.asset_id, claim.asset_id);
    assert_eq!(bundle.subject.network, "testnet");
    assert_eq!(bundle.claim.total_supply, 5);
    assert_eq!(bundle.observed, observed);
    assert_eq!(bundle.verdict, Verdict::Mismatch);
    assert_eq!(bundle.reasons, diff.reasons);
    assert_eq!(bundle.evidence.mode, "LIVE_OR_REPLAY");
    assert_eq!(bundle.evidence.source, "liquid-witness");
    assert_eq!(bundle.generated_at, "1970-01-01T00:00:00Z");
    let stamped = CabBundle::from_diff_at(
        &claim,
        observed,
        diff,
        "testnet".to_string(),
        Some("2026-08-06T00:00:00Z".to_string()),
    );
    assert_eq!(stamped.generated_at, "2026-08-06T00:00:00Z");
}

#[test]
fn from_diff_stamps_a_current_time() {
    let claim = demo_claim();
    let observed = ObservedState {
        asset_id: claim.asset_id.clone(),
        total_supply: 5,
        holders: claim.holders.clone(),
        complete: true,
        demo: false,
        source: "replay".to_string(),
        live_evidence: None,
    };
    let diff = diff_claim(&claim, &observed).unwrap();
    let bundle = CabBundle::from_diff(&claim, observed, diff, "testnet".to_string(), "s".to_string());
    assert_eq!(bundle.verdict, Verdict::Verified);
    assert!(bundle.generated_at.ends_with('Z'));
    let t = bundle.generated_at.as_bytes();
    assert!(t.len() >= 20 && t[4] == b'-' && t[7] == b'-' && t[10] == b'T' && t[13] == b':');
    assert!(bundle.generated_at.as_str() > "2020");
}

#[test]
fn example_bundle_is_demo() {
    let bundle = example_bundle().unwrap();
    assert_eq!(bundle.verdict, Verdict::Demo);
    assert_eq!(bundle.evidence.mode, "DEMO");
    assert_eq!(bundle.subject.asset_id, "ab".repeat(32));
    assert_eq!(bundle.claim.total_supply, 1000);
    assert_eq!(bundle.observed.holders.len(), 2);
    assert_eq!(bundle.cab_version, "0.1-compatible");
}

#[test]
fn bundle_does_not_record_the_descriptor_scope() {
    let claim = demo_claim();
    let observed = ObservedState {
        asset_id: claim.asset_id.clone(),
        total_supply: 5,
        holders: claim.holders.clone(),
        complete: true,
        demo: true,
        source: "fixture".to_string(),
        live_evidence: None,
    };
    let diff = diff_claim(&claim, &observed).unwrap();
    let mut a = CabBundle::from_diff(
        &claim,
        observed.clone(),
        diff.clone(),
        "testnet".to_string(),
        "ct(elwpk([aaaa".to_string(),
    );
    let mut b = CabBundle::from_diff(&claim, observed, diff, "testnet".to_string(), "x".to_string());
    a.generated_at.clear();
    b.generated_at.clear();
    assert_eq!(a, b);
}
