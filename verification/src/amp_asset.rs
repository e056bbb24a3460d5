use vstd::prelude::*;

verus! {

/// The AMP issuance mode of an asset.
#[derive(Clone, Copy, Debug, PartialEq, Eq, Structural)]
pub enum AmpMode {
    Amp0,
    Amp2,
    Unknown,
}

/// An AMP asset and the network it is scanned on.
#[derive(Clone, Debug, PartialEq, Eq)]
pub struct AmpAssetScope {
    pub asset_id: String,
    pub mode: AmpMode,
    pub network: String,
}

impl AmpAssetScope {
    /// An AMP0 asset on Liquid testnet.
    pub fn testnet_amp0(asset_id: String) -> (s: AmpAssetScope)
        ensures
            s.asset_id == asset_id,
            s.mode == AmpMode::Amp0,
            s.network@ == "testnet"@,
    {
        AmpAssetScope { asset_id, mode: AmpMode::Amp0, network: String::from_str("testnet") }
    }
}

} // verus!
