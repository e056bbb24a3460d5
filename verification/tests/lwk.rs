use liquid_witness::{
    asset_id_parse_outcome, descriptor_parse_outcome, prepare_lwk_scan, scan_asset_id,
    DescriptorError, ScanError, ScanRequest,
};

const LWK_DESCRIPTOR: &str = "ct(slip77(9c8e4f05c7711a98c838be228bcb84924d4570ca53f35fa1c793e58841d47023),elwpkh([73c5da0a/84'/1'/0']tpubDC8msFGeGuwnKG9Upg7DM2b4DaRqg3CUZa5g8v2SRQ6K4NSkxUgd7HsL2XVWbVm39yBA4LAxysQAm397zwQSQoQgewGiYZqrA9DsP4zbQ1M/<0;1>/*))";

fn request(descriptor: &str, asset_id: &str, network: &str) -> ScanRequest {
    ScanRequest {
        asset_id: asset_id.to_string(),
        descriptor: descriptor.to_string(),
        network: network.to_string(),
        electrum_url: None,
        txid: None,
        gaid_redacted: None,
    }
}

#[test]
fn lwk_reads_a_watch_only_descriptor() {
    assert!(prepare_lwk_scan(&request(LWK_DESCRIPTOR, "", "testnet")).is_ok());
}

#[test]
fn lwk_refusal_is_a_live_scan_error() {
    match prepare_lwk_scan(&request("ct(elwpk(nothing))", "", "testnet")) {
        Err(ScanError::LiveScan(m)) => assert!(m.starts_with("descriptor parse failed: ")),
        _ => panic!("expected a descriptor parse failure"),
    }
}

#[test]
fn lwk_scan_checks_network_and_guard_first() {
    assert_eq!(
        prepare_lwk_scan(&request(LWK_DESCRIPTOR, "", "liquid")).unwrap_err(),
        ScanError::UnsupportedNetwork("liquid".to_string())
    );
    assert_eq!(
        prepare_lwk_scan(&request("xprv", "", "testnet")).unwrap_err(),
        ScanError::Descriptor(DescriptorError::SignerMaterial)
    );
}

#[test]
fn asset_ids_are_read_as_hex() {
    assert!(scan_asset_id(&request("", &"ab".repeat(32), "testnet")).is_ok());
    match scan_asset_id(&request("", "zz", "testnet")) {
        Err(ScanError::LiveScan(m)) => assert!(m.starts_with("asset id parse failed: ")),
        _ => panic!("expected an asset id parse failure"),
    }
}

#[test]
fn parse_outcomes_label_the_stage() {
    let d: Result<lwk_wollet::WolletDescriptor, String> = Err("bad".to_string());
    assert_eq!(
        descriptor_parse_outcome(d).unwrap_err(),
        ScanError::LiveScan("descriptor parse failed: bad".to_string())
    );
    let a: Result<lwk_wollet::elements::AssetId, String> = Err("odd".to_string());
    assert_eq!(
        asset_id_parse_outcome(a).unwrap_err(),
        ScanError::LiveScan("asset id parse failed: odd".to_string())
    );
}
