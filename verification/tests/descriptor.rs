use liquid_witness::{descriptor_scope, DescriptorError, WatchOnlyDescriptor};

#[test]
fn rejects_empty_descriptor() {
    assert!(matches!(
        WatchOnlyDescriptor::parse(" ".to_string()),
        Err(DescriptorError::Empty)
    ));
}

#[test]
fn rejects_private_key_material_markers() {
    assert!(matches!(
        WatchOnlyDescriptor::parse("ct(slip77(tprv8Zgx...),elwpk(...))".to_string()),
        Err(DescriptorError::SignerMaterial)
    ));
}

#[test]
fn markers_are_found_in_any_ascii_case() {
    for text in ["XPRV", "abcSeEdxyz", "ct(TpRv)", "xprv"] {
        assert_eq!(
            WatchOnlyDescriptor::parse(text.to_string()).unwrap_err(),
            DescriptorError::SignerMaterial
        );
    }
    assert!(WatchOnlyDescriptor::parse("see d x-prv".to_string()).is_ok());
}

#[test]
fn blank_text_is_empty_before_markers() {
    assert_eq!(
        WatchOnlyDescriptor::parse(String::new()).unwrap_err(),
        DescriptorError::Empty
    );
    assert_eq!(
        WatchOnlyDescriptor::parse("\t\n\u{a0}\u{3000}".to_string()).unwrap_err(),
        DescriptorError::Empty
    );
}

#[test]
fn accepted_descriptor_keeps_its_text() {
    let text = "ct(elwpk([00000000/84h/1h/0h]tpub.../0/*))";
    let d = WatchOnlyDescriptor::parse(text.to_string()).unwrap();
    assert_eq!(d.as_str(), text);
    assert_eq!(d.redacted_scope(), "ct(elwpk([00000000...");
    assert_eq!(d.clone(), d);
}

#[test]
fn descriptor_scope_redacts_after_eighteen_characters() {
    assert_eq!(descriptor_scope("short"), "short...");
    assert_eq!(descriptor_scope("ééééééééééééééééééééé"), "éééééééééééééééééé...");
    assert_eq!(descriptor_scope(""), "...");
}

#[test]
fn descriptor_error_messages() {
    assert_eq!(DescriptorError::Empty.message(), "descriptor is empty");
    assert_eq!(
        DescriptorError::SignerMaterial.message(),
        "descriptor appears to contain signer material"
    );
}
