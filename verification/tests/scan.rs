use liquid_witness::{
    diff_claim, electrum_endpoint, observed_from_live_scan, prepare_live_scan, scan_live,
    scan_live_incomplete, AmpAssetScope, AmpMode, DescriptorError, HolderAmount, IssuerClaim,
    ScanError, ScanRequest, Verdict,
};

fn request() -> ScanRequest {
    ScanRequest {
        asset_id: "ab".repeat(32),
        descriptor: "ct(elwpk([00000000/84h/1h/0h]tpub.../0/*))".to_string(),
        network: "testnet".to_string(),
        electrum_url: None,
        txid: None,
        gaid_redacted: None,
    }
}

#[test]
fn live_placeholder_is_incomplete_not_verified() {
    let state = scan_live_incomplete(&ScanRequest {
        asset_id: "ab".repeat(32),
        descriptor: "ct(elwpk([00000000/84h/1h/0h]tpub.../0/*))".to_string(),
        network: "testnet".to_string(),
        electrum_url: None,
        txid: None,
        gaid_redacted: None,
    })
    .unwrap();
    assert!(!state.complete);
    assert!(!state.demo);
}

#[test]
fn live_placeholder_records_its_evidence() {
    let mut req = request();
    req.txid = Some("t1".to_string());
    let state = scan_live_incomplete(&req).unwrap();
    assert_eq!(state.asset_id, "ab".repeat(32));
    assert_eq!(state.total_supply, 0);
    assert!(state.holders.is_empty());
    assert_eq!(
        state.source,
        "live LWK scan requires --features live-lwk for elements-testnet.blockstream.info:50002"
    );
    let ev = state.live_evidence.clone().unwrap();
    assert_eq!(ev.endpoint, "elements-testnet.blockstream.info:50002");
    assert_eq!(ev.tx_count, 0);
    assert_eq!(ev.txid, Some("t1".to_string()));
    assert_eq!(ev.gaid_redacted, None);
    let claim = IssuerClaim {
        asset_id: "ab".repeat(32),
        total_supply: 0,
        holders: vec![],
    };
    assert_eq!(diff_claim(&claim, &state).unwrap().verdict, Verdict::Incomplete);
}

#[test]
fn live_placeholder_checks_the_descriptor() {
    let mut req = request();
    req.descriptor = "xprv".to_string();
    assert_eq!(
        scan_live_incomplete(&req).unwrap_err(),
        ScanError::Descriptor(DescriptorError::SignerMaterial)
    );
}

#[test]
fn scan_live_without_lwk_is_refused() {
    assert_eq!(scan_live(&request()).unwrap_err(), ScanError::LiveFeatureDisabled);
    let mut req = request();
    req.descriptor = "  ".to_string();
    assert_eq!(
        scan_live(&req).unwrap_err(),
        ScanError::Descriptor(DescriptorError::Empty)
    );
}

#[test]
fn live_scan_preparation_requires_testnet() {
    let mut req = request();
    req.network = "liquid".to_string();
    assert_eq!(
        prepare_live_scan(&req).unwrap_err(),
        ScanError::UnsupportedNetwork("liquid".to_string())
    );
    assert_eq!(
        prepare_live_scan(&request()).unwrap().as_str(),
        request().descriptor
    );
}

#[test]
fn live_scan_observation_is_complete() {
    let mut req = request();
    req.electrum_url = Some("example.org:50002".to_string());
    req.gaid_redacted = Some("GA...x".to_string());
    let state = observed_from_live_scan(&req, 42, 7);
    assert_eq!(state.total_supply, 42);
    assert_eq!(
        state.holders,
        vec![HolderAmount {
            category: "descriptor-scope".to_string(),
            amount: 42
        }]
    );
    assert!(state.complete);
    assert!(!state.demo);
    assert_eq!(state.source, "lwk_wollet full_scan_with_electrum_client");
    let ev = state.live_evidence.unwrap();
    assert_eq!(ev.endpoint, "example.org:50002");
    assert_eq!(ev.tx_count, 7);
    assert_eq!(ev.gaid_redacted, Some("GA...x".to_string()));
    assert_eq!(electrum_endpoint(&req), "example.org:50002");
}

#[test]
fn scan_error_messages() {
    assert_eq!(
        ScanError::FixtureRead("gone".to_string()).message(),
        "fixture read failed: gone"
    );
    assert_eq!(
        ScanError::FixtureParse("bad".to_string()).message(),
        "fixture parse failed: bad"
    );
    assert_eq!(
        ScanError::LiveFeatureDisabled.message(),
        "live LWK scanning requires building with --features live-lwk"
    );
    assert_eq!(
        ScanError::UnsupportedNetwork("liquid".to_string()).message(),
        "unsupported network liquid; v0.2 live capture only supports testnet"
    );
    assert_eq!(
        ScanError::LiveScan("x".to_string()).message(),
        "live LWK scan failed: x"
    );
    assert_eq!(
        ScanError::Descriptor(DescriptorError::Empty).message(),
        "descriptor is empty"
    );
}

#[test]
fn testnet_amp0_scope() {
    let scope = AmpAssetScope::testnet_amp0("ab".to_string());
    assert_eq!(scope.asset_id, "ab");
    assert_eq!(scope.mode, AmpMode::Amp0);
    assert_eq!(scope.network, "testnet");
}
