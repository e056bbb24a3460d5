use vstd::prelude::*;

use crate::cab_bridge::{bundle_records, CabBundle};
use crate::descriptor::{redact, redacted};
use crate::recompute::{
    demo_reason, diff_claim, diff_matches, texts, DiffResult, HolderAmount, IssuerClaim, ObservedState, RecomputeError,
};
use crate::text::push_char;
use crate::verdict::Verdict;

verus! {

/// The scope recorded for a descriptor: its first eighteen characters and `...`.
pub fn descriptor_scope(descriptor: &str) -> (s: String)
    ensures
        s@ == redacted(descriptor@),
{
    redact(descriptor)
}

/// The verdict a bare scan exits with: `Demo` for a fixture, `Verified` for
/// a complete observation, `Incomplete` otherwise.
pub fn scan_verdict(state: &ObservedState) -> (v: Verdict)
    ensures
        v == if state.demo {
            Verdict::Demo
        } else if state.complete {
            Verdict::Verified
        } else {
            Verdict::Incomplete
        },
{
    if state.demo {
        Verdict::Demo
    } else if state.complete {
        Verdict::Verified
    } else {
        Verdict::Incomplete
    }
}

/// The asset identifier of the example: `ab` thirty-two times.
pub open spec fn example_asset_id() -> Seq<char> {
    Seq::new(64, |i: int| if i % 2 == 0 { 'a' } else { 'b' })
}

fn example_asset_text() -> (s: String)
    ensures
        s@ == example_asset_id(),
{
    let mut s = String::new();
    for i in 0..32usize
        invariant
            s@ =~= example_asset_id().take(2 * i),
    {
        push_char(&mut s, 'a');
        push_char(&mut s, 'b');
    }
    s
}

fn example_holders() -> (hs: Vec<HolderAmount>)
    ensures
        hs@.len() == 2,
        hs@[0].category@ == "qualified-investor"@,
        hs@[0].amount == 700,
        hs@[1].category@ == "issuer-treasury"@,
        hs@[1].amount == 300,
{
    let mut hs: Vec<HolderAmount> = Vec::new();
    hs.push(HolderAmount { category: String::from_str("qualified-investor"), amount: 700 });
    hs.push(HolderAmount { category: String::from_str("issuer-treasury"), amount: 300 });
    hs
}

/// The holders of the example: 700 qualified-investor, 300 issuer-treasury.
pub open spec fn is_example_holders(hs: Seq<HolderAmount>) -> bool {
    &&& hs.len() == 2
    &&& hs[0].category@ == "qualified-investor"@
    &&& hs[0].amount == 700
    &&& hs[1].category@ == "issuer-treasury"@
    &&& hs[1].amount == 300
}

/// The example claim: 1000 units of the example asset.
pub open spec fn is_example_claim(c: IssuerClaim) -> bool {
    &&& c.asset_id@ == example_asset_id()
    &&& c.total_supply == 1000
    &&& is_example_holders(c.holders@)
}

/// The example observation: a complete fixture that matches the claim.
pub open spec fn is_example_observed(o: ObservedState) -> bool {
    &&& o.asset_id@ == example_asset_id()
    &&& o.total_supply == 1000
    &&& is_example_holders(o.holders@)
    &&& o.complete
    &&& o.demo
    &&& o.source@ == "examples/testnet-amp-scan/output.cab"@
    &&& o.live_evidence is None
}

/// The example bundle that `export` writes: a fixture-backed observation
/// that matches its claim, and so is reported as `Demo`.
pub fn example_bundle() -> (r: Result<CabBundle, RecomputeError>)
    ensures
        r matches Ok(b) && {
            &&& is_example_observed(b.observed)
            &&& exists|c: IssuerClaim, d: DiffResult|
                #![trigger bundle_records(c, b.observed, d, "testnet"@, b)]
                is_example_claim(c) && diff_matches(c, b.observed, d) && bundle_records(
                    c,
                    b.observed,
                    d,
                    "testnet"@,
                    b,
                )
            &&& b.verdict == Verdict::Demo
            &&& b.evidence.mode@ == "DEMO"@
            &&& texts(b.reasons@) == seq![demo_reason()]
        },
{
    let claim = IssuerClaim {
        asset_id: example_asset_text(),
        total_supply: 1000,
        holders: example_holders(),
    };
    let observed = ObservedState {
        asset_id: example_asset_text(),
        total_supply: 1000,
        holders: example_holders(),
        complete: true,
        demo: true,
        source: String::from_str("examples/testnet-amp-scan/output.cab"),
        live_evidence: None,
    };
    let diff = diff_claim(&claim, &observed)?;
    let ghost d = diff;
    let b = CabBundle::from_diff(
        &claim,
        observed,
        diff,
        String::from_str("testnet"),
        String::from_str("example watch-only descriptor"),
    );
    assert(bundle_records(claim, b.observed, d, "testnet"@, b));
    Ok(b)
}

} // verus!
