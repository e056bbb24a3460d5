use lwk_wollet::elements::AssetId;
use lwk_wollet::WolletDescriptor;
use vstd::prelude::*;

use crate::descriptor::{descriptor_rejection, DescriptorError, WatchOnlyDescriptor};
use crate::recompute::{
    spec_diff_verdict, HolderAmount, IssuerClaim, LiveEvidence, ObservedState,
};
use crate::verdict::Verdict;

verus! {

/// What a scan of one asset is asked to cover.
#[derive(Clone, Debug, PartialEq, Eq)]
pub struct ScanRequest {
    pub asset_id: String,
    pub descriptor: String,
    pub network: String,
    pub electrum_url: Option<String>,
    pub txid: Option<String>,
    pub gaid_redacted: Option<String>,
}

/// Why a scan produced no observation.
#[derive(Clone, Debug, PartialEq, Eq)]
pub enum ScanError {
    Descriptor(DescriptorError),
    FixtureRead(String),
    FixtureParse(String),
    LiveFeatureDisabled,
    UnsupportedNetwork(String),
    LiveScan(String),
}

/// The Electrum server a request names, or the public Liquid testnet one.
pub open spec fn spec_electrum_endpoint(request: ScanRequest) -> Seq<char> {
    match request.electrum_url {
        Some(u) => u@,
        None => "elements-testnet.blockstream.info:50002"@,
    }
}

/// The evidence recorded for a scan of `request` that saw `tx_count`
/// transactions.
pub open spec fn records_live_evidence(request: ScanRequest, tx_count: usize, e: LiveEvidence) -> bool {
    &&& e.endpoint@ == spec_electrum_endpoint(request)
    &&& e.tx_count == tx_count
    &&& e.txid == request.txid
    &&& e.gaid_redacted == request.gaid_redacted
}

/// The observation recorded when no live scan could be run: nothing is
/// observed, and the observation is marked incomplete, not fixture-backed.
pub open spec fn placeholder_state(request: ScanRequest, s: ObservedState) -> bool {
    &&& s.asset_id@ == request.asset_id@
    &&& s.total_supply == 0
    &&& s.holders@.len() == 0
    &&& !s.complete
    &&& !s.demo
    &&& s.source@ == "live LWK scan requires --features live-lwk for "@ + spec_electrum_endpoint(
        request,
    )
    &&& s.live_evidence matches Some(e) && records_live_evidence(request, 0, e)
}

/// The observation recorded from a complete live scan of the descriptor's
/// wallet: `amount` of the asset, all in the descriptor's scope.
pub open spec fn live_scan_state(
    request: ScanRequest,
    amount: u64,
    tx_count: usize,
    s: ObservedState,
) -> bool {
    &&& s.asset_id@ == request.asset_id@
    &&& s.total_supply == amount
    &&& s.holders@.len() == 1
    &&& s.holders@[0].category@ == "descriptor-scope"@
    &&& s.holders@[0].amount == amount
    &&& s.complete
    &&& !s.demo
    &&& s.source@ == "lwk_wollet full_scan_with_electrum_client"@
    &&& s.live_evidence matches Some(e) && records_live_evidence(request, tx_count, e)
}

fn copy_text(o: &Option<String>) -> (r: Option<String>)
    ensures
        r == *o,
{
    match o {
        Some(t) => Some(t.clone()),
        None => None,
    }
}

/// The Electrum server a request names, or the public Liquid testnet one.
pub fn electrum_endpoint(request: &ScanRequest) -> (s: String)
    ensures
        s@ == spec_electrum_endpoint(*request),
{
    match &request.electrum_url {
        Some(u) => u.clone(),
        None => String::from_str("elements-testnet.blockstream.info:50002"),
    }
}

fn live_evidence(request: &ScanRequest, tx_count: usize) -> (e: LiveEvidence)
    ensures
        records_live_evidence(*request, tx_count, e),
{
    LiveEvidence {
        endpoint: electrum_endpoint(request),
        tx_count,
        txid: copy_text(&request.txid),
        gaid_redacted: copy_text(&request.gaid_redacted),
    }
}

/// Checks the descriptor, then records that no live scan was run: the
/// observation is empty and incomplete.
pub fn scan_live_incomplete(request: &ScanRequest) -> (r: Result<ObservedState, ScanError>)
    ensures
        match descriptor_rejection(request.descriptor@) {
            Some(e) => r == Err::<ObservedState, ScanError>(ScanError::Descriptor(e)),
            None => r matches Ok(s) && placeholder_state(*request, s),
        },
{
    if let Err(e) = WatchOnlyDescriptor::parse(request.descriptor.clone()) {
        return Err(ScanError::Descriptor(e));
    }
    let mut source = String::from_str("live LWK scan requires --features live-lwk for ");
    let endpoint = electrum_endpoint(request);
    source.append(endpoint.as_str());
    Ok(
        ObservedState {
            asset_id: request.asset_id.clone(),
            total_supply: 0,
            holders: Vec::new(),
            complete: false,
            demo: false,
            source,
            live_evidence: Some(live_evidence(request, 0)),
        },
    )
}

/// The live scan of a build without the LWK boundary: the descriptor is
/// checked, and the scan is refused.
pub fn scan_live(request: &ScanRequest) -> (r: Result<ObservedState, ScanError>)
    ensures
        r == Err::<ObservedState, ScanError>(
            match descriptor_rejection(request.descriptor@) {
                Some(e) => ScanError::Descriptor(e),
                None => ScanError::LiveFeatureDisabled,
            },
        ),
{
    match WatchOnlyDescriptor::parse(request.descriptor.clone()) {
        Err(e) => Err(ScanError::Descriptor(e)),
        Ok(_) => Err(ScanError::LiveFeatureDisabled),
    }
}

/// The checks made before a live scan: only Liquid testnet is scanned, and
/// the descriptor must pass the watch-only guard.
pub fn prepare_live_scan(request: &ScanRequest) -> (r: Result<WatchOnlyDescriptor, ScanError>)
    ensures
        request.network@ != "testnet"@ ==> r == Err::<WatchOnlyDescriptor, ScanError>(
            ScanError::UnsupportedNetwork(request.network),
        ),
        request.network@ == "testnet"@ ==> match descriptor_rejection(request.descriptor@) {
            Some(e) => r == Err::<WatchOnlyDescriptor, ScanError>(ScanError::Descriptor(e)),
            None => r matches Ok(d) && d@ == request.descriptor@,
        },
{
    if request.network != String::from_str("testnet") {
        return Err(ScanError::UnsupportedNetwork(request.network.clone()));
    }
    match WatchOnlyDescriptor::parse(request.descriptor.clone()) {
        Err(e) => Err(ScanError::Descriptor(e)),
        Ok(d) => Ok(d),
    }
}

/// The observation recorded from a complete live scan that found `amount`
/// of the asset in the descriptor's wallet over `tx_count` transactions.
pub fn observed_from_live_scan(request: &ScanRequest, amount: u64, tx_count: usize) -> (s: ObservedState)
    ensures
        live_scan_state(*request, amount, tx_count, s),
{
    let mut holders: Vec<HolderAmount> = Vec::new();
    holders.push(HolderAmount { category: String::from_str("descriptor-scope"), amount });
    ObservedState {
        asset_id: request.asset_id.clone(),
        total_supply: amount,
        holders,
        complete: true,
        demo: false,
        source: String::from_str("lwk_wollet full_scan_with_electrum_client"),
        live_evidence: Some(live_evidence(request, tx_count)),
    }
}

#[verifier::external_type_specification]
#[verifier::external_body]
pub struct ExWolletDescriptor(WolletDescriptor);

#[verifier::external_type_specification]
#[verifier::external_body]
pub struct ExAssetId(AssetId);

/// Whether LWK reads a text as a wallet descriptor.
pub uninterp spec fn lwk_descriptor_parses(s: Seq<char>) -> bool;

/// Whether a text is an Elements asset identifier.
pub uninterp spec fn lwk_asset_id_parses(s: Seq<char>) -> bool;

/// `<lwk_wollet::WolletDescriptor as FromStr>::from_str`: whether LWK reads
/// the text as a (confidential) wallet descriptor depends on the text alone;
/// a refusal comes back as the error's message, of which nothing is stated.
#[verifier::external_body]
fn parse_wollet_descriptor(s: &str) -> (r: Result<WolletDescriptor, String>)
    ensures
        r is Ok <==> lwk_descriptor_parses(s@),
{
    s.parse::<WolletDescriptor>().map_err(|error| error.to_string())
}

/// `<elements::AssetId as FromStr>::from_str`: whether the text is an asset
/// identifier depends on the text alone; a refusal comes back as the
/// error's message, of which nothing is stated.
#[verifier::external_body]
fn parse_asset_id(s: &str) -> (r: Result<AssetId, String>)
    ensures
        r is Ok <==> lwk_asset_id_parses(s@),
{
    s.parse::<AssetId>().map_err(|error| error.to_string())
}

/// `t` begins with `prefix`.
pub open spec fn starts_with(t: Seq<char>, prefix: Seq<char>) -> bool {
    prefix.len() <= t.len() && t.take(prefix.len() as int) == prefix
}

/// The scan error for an LWK refusal at one stage: the stage's label, then
/// LWK's message.
fn live_scan_error(stage: &str, message: String) -> (e: ScanError)
    ensures
        e matches ScanError::LiveScan(m) && m@ == stage@ + message@,
{
    let mut m = String::from_str(stage);
    m.append(message.as_str());
    ScanError::LiveScan(m)
}

/// What a descriptor parse by LWK leaves for the scan: the descriptor, or a
/// `LiveScan` error that reads "descriptor parse failed: " and LWK's message.
pub fn descriptor_parse_outcome(parsed: Result<WolletDescriptor, String>) -> (r: Result<
    WolletDescriptor,
    ScanError,
>)
    ensures
        parsed matches Ok(d) ==> r == Ok::<WolletDescriptor, ScanError>(d),
        parsed matches Err(m) ==> r matches Err(ScanError::LiveScan(t)) && t@
            == "descriptor parse failed: "@ + m@,
{
    match parsed {
        Ok(d) => Ok(d),
        Err(m) => Err(live_scan_error("descriptor parse failed: ", m)),
    }
}

/// What an asset identifier parse leaves for the scan: the identifier, or a
/// `LiveScan` error that reads "asset id parse failed: " and the message.
pub fn asset_id_parse_outcome(parsed: Result<AssetId, String>) -> (r: Result<AssetId, ScanError>)
    ensures
        parsed matches Ok(a) ==> r == Ok::<AssetId, ScanError>(a),
        parsed matches Err(m) ==> r matches Err(ScanError::LiveScan(t)) && t@
            == "asset id parse failed: "@ + m@,
{
    match parsed {
        Ok(a) => Ok(a),
        Err(m) => Err(live_scan_error("asset id parse failed: ", m)),
    }
}

/// Everything a live scan does before it reaches the network: only Liquid
/// testnet is scanned, the descriptor must pass the watch-only guard, and
/// LWK must read it as a wallet descriptor.
pub fn prepare_lwk_scan(request: &ScanRequest) -> (r: Result<WolletDescriptor, ScanError>)
    ensures
        request.network@ != "testnet"@ ==> r == Err::<WolletDescriptor, ScanError>(
            ScanError::UnsupportedNetwork(request.network),
        ),
        request.network@ == "testnet"@ ==> match descriptor_rejection(request.descriptor@) {
            Some(e) => r == Err::<WolletDescriptor, ScanError>(ScanError::Descriptor(e)),
            None => {
                &&& r is Ok <==> lwk_descriptor_parses(request.descriptor@)
                &&& r matches Err(e) ==> e matches ScanError::LiveScan(m) && starts_with(
                    m@,
                    "descriptor parse failed: "@,
                )
            },
        },
{
    let descriptor = prepare_live_scan(request)?;
    let parsed = parse_wollet_descriptor(descriptor.as_str());
    let r = descriptor_parse_outcome(parsed);
    proof {
        match &r {
            Err(ScanError::LiveScan(m)) => {
                assert(m@.take("descriptor parse failed: "@.len() as int) =~= "descriptor parse failed: "@);
            },
            _ => {},
        }
    }
    r
}

/// The asset identifier a request names, as LWK reads it.
pub fn scan_asset_id(request: &ScanRequest) -> (r: Result<AssetId, ScanError>)
    ensures
        r is Ok <==> lwk_asset_id_parses(request.asset_id@),
        r matches Err(e) ==> e matches ScanError::LiveScan(m) && starts_with(
            m@,
            "asset id parse failed: "@,
        ),
{
    let r = asset_id_parse_outcome(parse_asset_id(request.asset_id.as_str()));
    proof {
        match &r {
            Err(ScanError::LiveScan(m)) => {
                assert(m@.take("asset id parse failed: "@.len() as int) =~= "asset id parse failed: "@);
            },
            _ => {},
        }
    }
    r
}

impl ScanError {
    /// The message the error is displayed with.
    pub fn message(&self) -> (s: String)
        ensures
            s@ == match self {
                ScanError::Descriptor(DescriptorError::Empty) => "descriptor is empty"@,
                ScanError::Descriptor(DescriptorError::SignerMaterial) => "descriptor appears to contain signer material"@,
                ScanError::FixtureRead(m) => "fixture read failed: "@ + m@,
                ScanError::FixtureParse(m) => "fixture parse failed: "@ + m@,
                ScanError::LiveFeatureDisabled => "live LWK scanning requires building with --features live-lwk"@,
                ScanError::UnsupportedNetwork(n) => "unsupported network "@ + n@ + "; v0.2 live capture only supports testnet"@,
                ScanError::LiveScan(m) => "live LWK scan failed: "@ + m@,
            },
    {
        match self {
            ScanError::Descriptor(e) => String::from_str(e.message()),
            ScanError::FixtureRead(m) => {
                let mut s = String::from_str("fixture read failed: ");
                s.append(m.as_str());
                s
            },
            ScanError::FixtureParse(m) => {
                let mut s = String::from_str("fixture parse failed: ");
                s.append(m.as_str());
                s
            },
            ScanError::LiveFeatureDisabled => String::from_str(
                "live LWK scanning requires building with --features live-lwk",
            ),
            ScanError::UnsupportedNetwork(n) => {
                let mut s = String::from_str("unsupported network ");
                s.append(n.as_str());
                s.append("; v0.2 live capture only supports testnet");
                s
            },
            ScanError::LiveScan(m) => {
                let mut s = String::from_str("live LWK scan failed: ");
                s.append(m.as_str());
                s
            },
        }
    }
}

/// The observation recorded without a live scan never verifies a claim:
/// any claim of the same asset is answered `Incomplete`.
pub proof fn lemma_placeholder_never_verified(
    request: ScanRequest,
    s: ObservedState,
    claim: IssuerClaim,
)
    requires
        placeholder_state(request, s),
    ensures
        spec_diff_verdict(claim, s) == Verdict::Incomplete,
{
}

} // verus!
