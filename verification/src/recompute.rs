use vstd::prelude::*;

use crate::holders::{
    category_set, category_total, keys_of, lemma_absent_category_total, lemma_reordering_keeps_totals,
    lemma_sorted_categories, lemma_split_entry_keeps_totals,
    normalize_holders, sorted_categories, totals_fit, CategoryTotal,
};
use crate::order::chars_equal;
use crate::text::{push_char, push_decimal, spec_decimal};
use crate::verdict::Verdict;

verus! {

/// The amount held by one category of holders.
#[derive(Clone, Debug, PartialEq, Eq)]
pub struct HolderAmount {
    pub category: String,
    pub amount: u64,
}

/// What an issuer states about an asset: its supply and how it is held.
#[derive(Clone, Debug, PartialEq, Eq)]
pub struct IssuerClaim {
    pub asset_id: String,
    pub total_supply: u64,
    pub holders: Vec<HolderAmount>,
}

/// Where and how a live scan was made.
#[derive(Clone, Debug, PartialEq, Eq)]
pub struct LiveEvidence {
    pub endpoint: String,
    pub tx_count: usize,
    pub txid: Option<String>,
    pub gaid_redacted: Option<String>,
}

/// The supply and holdings of an asset as a scan or a fixture recorded them.
#[derive(Clone, Debug, PartialEq, Eq)]
pub struct ObservedState {
    pub asset_id: String,
    pub total_supply: u64,
    pub holders: Vec<HolderAmount>,
    pub complete: bool,
    pub demo: bool,
    pub source: String,
    pub live_evidence: Option<LiveEvidence>,
}

/// The verdict on a claim, with the differences that led to it.
#[derive(Clone, Debug, PartialEq, Eq)]
pub struct DiffResult {
    pub verdict: Verdict,
    pub reasons: Vec<String>,
    pub observed_total_supply: u64,
    pub claimed_total_supply: u64,
}

/// Why a claim could not be compared with an observation.
#[derive(Clone, Debug, PartialEq, Eq)]
pub enum RecomputeError {
    AssetIdMismatch { claim: String, observed: String },
}

impl RecomputeError {
    /// The message the error is displayed with.
    pub fn message(&self) -> (s: String)
        ensures
            s@ == match self {
                RecomputeError::AssetIdMismatch { claim, observed } => "claim asset id "@ + claim@
                    + " does not match observed asset id "@ + observed@,
            },
    {
        match self {
            RecomputeError::AssetIdMismatch { claim, observed } => {
                let mut s = String::from_str("claim asset id ");
                s.append(claim.as_str());
                s.append(" does not match observed asset id ");
                s.append(observed.as_str());
                s
            },
        }
    }
}

/// The texts of a list of strings.
pub open spec fn texts(v: Seq<String>) -> Seq<Seq<char>> {
    v.map_values(|s: String| s@)
}

/// The reason given for a fixture-backed observation.
pub open spec fn demo_reason() -> Seq<char> {
    "fixture-backed run; no live Liquid/LWK round trip was performed"@
}

/// The reason given for an observation that did not cover the claim.
pub open spec fn incomplete_reason() -> Seq<char> {
    "scan did not cover the full issuer claim"@
}

/// The reason given when the total supplies differ.
pub open spec fn supply_reason(claimed: nat, observed: nat) -> Seq<char> {
    "total supply mismatch: claimed "@ + spec_decimal(claimed) + ", observed "@ + spec_decimal(
        observed,
    )
}

/// The reason given when the totals of one holder category differ.
pub open spec fn category_reason(category: Seq<char>, claimed: nat, observed: nat) -> Seq<char> {
    "holder category "@ + category + " mismatch: claimed "@ + spec_decimal(claimed)
        + ", observed "@ + spec_decimal(observed)
}

/// One reason for each listed category whose claimed and observed totals
/// differ, in the order of the list.
pub open spec fn category_reasons(
    keys: Seq<Seq<char>>,
    claimed: Seq<HolderAmount>,
    observed: Seq<HolderAmount>,
) -> Seq<Seq<char>>
    decreases keys.len(),
{
    if keys.len() == 0 {
        Seq::empty()
    } else {
        let prev = category_reasons(keys.drop_last(), claimed, observed);
        let k = keys.last();
        let c = category_total(claimed, k);
        let o = category_total(observed, k);
        if c != o {
            prev.push(category_reason(k, c, o))
        } else {
            prev
        }
    }
}

/// The differences between a claim and a complete observation: the supply,
/// then the claimed categories in ascending order, then the observed
/// categories in ascending order (a category on both sides is reported in
/// each pass).
pub open spec fn comparison_reasons(claim: IssuerClaim, observed: ObservedState) -> Seq<Seq<char>> {
    (if claim.total_supply != observed.total_supply {
        seq![supply_reason(claim.total_supply as nat, observed.total_supply as nat)]
    } else {
        Seq::empty()
    }) + category_reasons(sorted_categories(claim.holders@), claim.holders@, observed.holders@)
        + category_reasons(sorted_categories(observed.holders@), claim.holders@, observed.holders@)
}

/// The verdict on a claim whose asset matches the observation's.
pub open spec fn spec_diff_verdict(claim: IssuerClaim, observed: ObservedState) -> Verdict {
    if observed.demo {
        Verdict::Demo
    } else if !observed.complete {
        Verdict::Incomplete
    } else if comparison_reasons(claim, observed).len() == 0 {
        Verdict::Verified
    } else {
        Verdict::Mismatch
    }
}

/// The reasons reported with that verdict.
pub open spec fn spec_diff_reasons(claim: IssuerClaim, observed: ObservedState) -> Seq<Seq<char>> {
    if observed.demo {
        seq![demo_reason()]
    } else if !observed.complete {
        seq![incomplete_reason()]
    } else {
        comparison_reasons(claim, observed)
    }
}

/// Whether `diff_claim` can compare the two without a category total
/// overflowing: the totals are only summed for a complete, non-fixture
/// observation of the same asset.
pub open spec fn diff_inputs_fit(claim: IssuerClaim, observed: ObservedState) -> bool {
    (claim.asset_id@ == observed.asset_id@ && !observed.demo && observed.complete) ==> (totals_fit(
        claim.holders@,
    ) && totals_fit(observed.holders@))
}

/// The result of `diff_claim` on a pair it accepts.
pub open spec fn diff_matches(claim: IssuerClaim, observed: ObservedState, d: DiffResult) -> bool {
    &&& d.verdict == spec_diff_verdict(claim, observed)
    &&& texts(d.reasons@) == spec_diff_reasons(claim, observed)
    &&& d.observed_total_supply == observed.total_supply
    &&& d.claimed_total_supply == claim.total_supply
}

fn supply_reason_text(claimed: u64, observed: u64) -> (s: String)
    ensures
        s@ == supply_reason(claimed as nat, observed as nat),
{
    let mut s = String::from_str("total supply mismatch: claimed ");
    push_decimal(&mut s, claimed);
    s.append(", observed ");
    push_decimal(&mut s, observed);
    s
}

fn category_reason_text(category: &Vec<char>, claimed: u64, observed: u64) -> (s: String)
    ensures
        s@ == category_reason(category@, claimed as nat, observed as nat),
{
    let mut s = String::from_str("holder category ");
    let ghost start = s@;
    for i in 0..category.len()
        invariant
            s@ == start + category@.take(i as int),
    {
        push_char(&mut s, category[i]);
        assert(category@.take(i + 1) =~= category@.take(i as int).push(category@[i as int]));
    }
    assert(category@.take(category.len() as int) =~= category@);
    s.append(" mismatch: claimed ");
    push_decimal(&mut s, claimed);
    s.append(", observed ");
    push_decimal(&mut s, observed);
    s
}

/// The total of a category, looked up in the normalised totals of `hs`.
fn lookup_total(norm: &Vec<CategoryTotal>, key: &Vec<char>, Ghost(hs): Ghost<Seq<HolderAmount>>) -> (t: u64)
    requires
        keys_of(norm@) == sorted_categories(hs),
        forall|j: int|
            0 <= j < norm@.len() ==> (#[trigger] norm@[j]).total == category_total(hs, norm@[j].category@),
    ensures
        t == category_total(hs, key@),
{
    let mut j: usize = 0;
    while j < norm.len()
        invariant
            j <= norm@.len(),
            keys_of(norm@) == sorted_categories(hs),
            forall|x: int|
                0 <= x < norm@.len() ==> (#[trigger] norm@[x]).total == category_total(hs, norm@[x].category@),
            forall|x: int| 0 <= x < j ==> norm@[x].category@ != key@,
        decreases norm.len() - j,
    {
        if chars_equal(&norm[j].category, key) {
            return norm[j].total;
        }
        j = j + 1;
    }
    proof {
        lemma_sorted_categories(hs);
        if category_set(hs).contains(key@) {
            assert(keys_of(norm@).contains(key@));
            let x = choose|x: int| 0 <= x < keys_of(norm@).len() && keys_of(norm@)[x] == key@;
            assert(norm@[x].category@ == key@);
        }
        lemma_absent_category_total(hs, key@);
    }
    0
}

/// Appends a reason for each entry of `norm` whose claimed and observed
/// totals differ.
fn push_category_reasons(
    reasons: &mut Vec<String>,
    norm: &Vec<CategoryTotal>,
    claimed_norm: &Vec<CategoryTotal>,
    observed_norm: &Vec<CategoryTotal>,
    Ghost(claimed): Ghost<Seq<HolderAmount>>,
    Ghost(observed): Ghost<Seq<HolderAmount>>,
)
    requires
        keys_of(claimed_norm@) == sorted_categories(claimed),
        forall|j: int|
            0 <= j < claimed_norm@.len() ==> (#[trigger] claimed_norm@[j]).total == category_total(
                claimed,
                claimed_norm@[j].category@,
            ),
        keys_of(observed_norm@) == sorted_categories(observed),
        forall|j: int|
            0 <= j < observed_norm@.len() ==> (#[trigger] observed_norm@[j]).total
                == category_total(observed, observed_norm@[j].category@),
    ensures
        texts(final(reasons)@) == texts(old(reasons)@) + category_reasons(
            keys_of(norm@),
            claimed,
            observed,
        ),
{
    let ghost start = texts(reasons@);
    let ghost keys = keys_of(norm@);
    for j in 0..norm.len()
        invariant
            keys == keys_of(norm@),
            keys_of(claimed_norm@) == sorted_categories(claimed),
            forall|x: int|
                0 <= x < claimed_norm@.len() ==> (#[trigger] claimed_norm@[x]).total
                    == category_total(claimed, claimed_norm@[x].category@),
            keys_of(observed_norm@) == sorted_categories(observed),
            forall|x: int|
                0 <= x < observed_norm@.len() ==> (#[trigger] observed_norm@[x]).total
                    == category_total(observed, observed_norm@[x].category@),
            texts(reasons@) == start + category_reasons(keys.take(j as int), claimed, observed),
    {
        let key = &norm[j].category;
        let c = lookup_total(claimed_norm, key, Ghost(claimed));
        let o = lookup_total(observed_norm, key, Ghost(observed));
        assert(keys.take(j + 1).drop_last() =~= keys.take(j as int));
        assert(keys.take(j + 1).last() == key@);
        let ghost before = reasons@;
        if c != o {
            reasons.push(category_reason_text(key, c, o));
            assert(texts(reasons@) =~= texts(before).push(reasons@.last()@));
        }
    }
    assert(keys.take(norm.len() as int) =~= keys);
}

/// Compares an issuer claim with an observation of the same asset.
///
/// A fixture-backed observation gives `Demo` and an incomplete one
/// `Incomplete`, whatever the amounts; a complete one gives `Verified` when
/// the supply and every holder category's summed total agree, and
/// `Mismatch` with one reason per difference otherwise.
pub fn diff_claim(claim: &IssuerClaim, observed: &ObservedState) -> (r: Result<
    DiffResult,
    RecomputeError,
>)
    requires
        diff_inputs_fit(*claim, *observed),
    ensures
        r is Err <==> claim.asset_id@ != observed.asset_id@,
        r matches Err(RecomputeError::AssetIdMismatch { claim: c, observed: o }) ==> c@
            == claim.asset_id@ && o@ == observed.asset_id@,
        r matches Ok(d) ==> diff_matches(*claim, *observed, d),
{
    if claim.asset_id != observed.asset_id {
        return Err(
            RecomputeError::AssetIdMismatch {
                claim: claim.asset_id.clone(),
                observed: observed.asset_id.clone(),
            },
        );
    }
    if observed.demo {
        let mut reasons: Vec<String> = Vec::new();
        reasons.push(String::from_str("fixture-backed run; no live Liquid/LWK round trip was performed"));
        assert(texts(reasons@) =~= seq![demo_reason()]);
        return Ok(
            DiffResult {
                verdict: Verdict::Demo,
                reasons,
                observed_total_supply: observed.total_supply,
                claimed_total_supply: claim.total_supply,
            },
        );
    }
    if !observed.complete {
        let mut reasons: Vec<String> = Vec::new();
        reasons.push(String::from_str("scan did not cover the full issuer claim"));
        assert(texts(reasons@) =~= seq![incomplete_reason()]);
        return Ok(
            DiffResult {
                verdict: Verdict::Incomplete,
                reasons,
                observed_total_supply: observed.total_supply,
                claimed_total_supply: claim.total_supply,
            },
        );
    }
    let mut reasons: Vec<String> = Vec::new();
    if claim.total_supply != observed.total_supply {
        reasons.push(supply_reason_text(claim.total_supply, observed.total_supply));
    }
    let ghost supply_part = texts(reasons@);
    assert(supply_part =~= (if claim.total_supply != observed.total_supply {
        seq![supply_reason(claim.total_supply as nat, observed.total_supply as nat)]
    } else {
        Seq::<Seq<char>>::empty()
    }));
    let claimed_holders = normalize_holders(claim.holders.as_slice());
    let observed_holders = normalize_holders(observed.holders.as_slice());
    push_category_reasons(
        &mut reasons,
        &claimed_holders,
        &claimed_holders,
        &observed_holders,
        Ghost(claim.holders@),
        Ghost(observed.holders@),
    );
    push_category_reasons(
        &mut reasons,
        &observed_holders,
        &claimed_holders,
        &observed_holders,
        Ghost(claim.holders@),
        Ghost(observed.holders@),
    );
    assert(texts(reasons@) =~= comparison_reasons(*claim, *observed));
    let verdict = if reasons.len() == 0 {
        Verdict::Verified
    } else {
        Verdict::Mismatch
    };
    Ok(
        DiffResult {
            verdict,
            reasons,
            observed_total_supply: observed.total_supply,
            claimed_total_supply: claim.total_supply,
        },
    )
}

/// Reasons accumulate: no listed category gives a reason exactly when every
/// listed category has equal totals on both sides.
proof fn lemma_category_reasons_empty(
    keys: Seq<Seq<char>>,
    claimed: Seq<HolderAmount>,
    observed: Seq<HolderAmount>,
)
    ensures
        category_reasons(keys, claimed, observed).len() == 0 <==> forall|i: int|
            0 <= i < keys.len() ==> category_total(claimed, #[trigger] keys[i]) == category_total(
                observed,
                keys[i],
            ),
    decreases keys.len(),
{
    if keys.len() > 0 {
        let prev = keys.drop_last();
        lemma_category_reasons_empty(prev, claimed, observed);
        if forall|i: int|
            0 <= i < keys.len() ==> category_total(claimed, #[trigger] keys[i]) == category_total(
                observed,
                keys[i],
            ) {
            assert forall|i: int| 0 <= i < prev.len() implies category_total(
                claimed,
                #[trigger] prev[i],
            ) == category_total(observed, prev[i]) by {
                assert(prev[i] == keys[i]);
            }
        }
        if category_reasons(keys, claimed, observed).len() == 0 {
            assert forall|i: int| 0 <= i < keys.len() implies category_total(
                claimed,
                #[trigger] keys[i],
            ) == category_total(observed, keys[i]) by {
                if i < keys.len() - 1 {
                    assert(prev[i] == keys[i]);
                }
            }
        }
    }
}

/// The holdings agree: every category sums to the same total on both sides.
pub open spec fn holdings_agree(claimed: Seq<HolderAmount>, observed: Seq<HolderAmount>) -> bool {
    forall|c: Seq<char>| #[trigger] category_total(claimed, c) == category_total(observed, c)
}

/// A claim is verified exactly when the observation is complete, is not
/// fixture-backed, and agrees with the claim on the total supply and on the
/// summed total of every holder category.
pub proof fn lemma_verified_iff_agreement(claim: IssuerClaim, observed: ObservedState)
    ensures
        spec_diff_verdict(claim, observed) == Verdict::Verified <==> {
            &&& !observed.demo
            &&& observed.complete
            &&& claim.total_supply == observed.total_supply
            &&& holdings_agree(claim.holders@, observed.holders@)
        },
{
    let a = claim.holders@;
    let b = observed.holders@;
    let ka = sorted_categories(a);
    let kb = sorted_categories(b);
    lemma_category_reasons_empty(ka, a, b);
    lemma_category_reasons_empty(kb, a, b);
    lemma_sorted_categories(a);
    lemma_sorted_categories(b);
    if !observed.demo && observed.complete && comparison_reasons(claim, observed).len() == 0 {
        assert forall|c: Seq<char>| #[trigger] category_total(a, c) == category_total(b, c) by {
            if ka.contains(c) {
                let i = choose|i: int| 0 <= i < ka.len() && ka[i] == c;
                assert(category_total(a, ka[i]) == category_total(b, ka[i]));
            } else if kb.contains(c) {
                let i = choose|i: int| 0 <= i < kb.len() && kb[i] == c;
                assert(category_total(a, kb[i]) == category_total(b, kb[i]));
            } else {
                lemma_absent_category_total(a, c);
                lemma_absent_category_total(b, c);
            }
        }
    }
}

/// No reason is reported exactly when the claim is verified; every other
/// verdict comes with at least one reason.
pub proof fn lemma_no_reasons_iff_verified(claim: IssuerClaim, observed: ObservedState)
    ensures
        spec_diff_reasons(claim, observed).len() == 0 <==> spec_diff_verdict(claim, observed)
            == Verdict::Verified,
{
}

/// A fixture-backed observation is reported as `Demo`, and an incomplete
/// live or replay observation as `Incomplete`, whatever amounts they hold:
/// neither is ever promoted to `Verified`.
pub proof fn lemma_evidence_boundary(claim: IssuerClaim, observed: ObservedState)
    ensures
        observed.demo ==> spec_diff_verdict(claim, observed) == Verdict::Demo,
        !observed.demo && !observed.complete ==> spec_diff_verdict(claim, observed)
            == Verdict::Incomplete,
        spec_diff_verdict(claim, observed) == Verdict::Verified ==> observed.complete
            && !observed.demo,
{
}

proof fn lemma_category_reasons_follow_totals(
    keys: Seq<Seq<char>>,
    a1: Seq<HolderAmount>,
    b1: Seq<HolderAmount>,
    a2: Seq<HolderAmount>,
    b2: Seq<HolderAmount>,
)
    requires
        forall|c: Seq<char>| #[trigger] category_total(a1, c) == category_total(a2, c),
        forall|c: Seq<char>| #[trigger] category_total(b1, c) == category_total(b2, c),
    ensures
        category_reasons(keys, a1, b1) == category_reasons(keys, a2, b2),
    decreases keys.len(),
{
    if keys.len() > 0 {
        lemma_category_reasons_follow_totals(keys.drop_last(), a1, b1, a2, b2);
        assert(category_total(a1, keys.last()) == category_total(a2, keys.last()));
        assert(category_total(b1, keys.last()) == category_total(b2, keys.last()));
    }
}

/// The outcome of a comparison depends on the holder lists only through
/// their categories and per-category totals: claims and observations with
/// the same supplies, flags, categories and totals get the same verdict and
/// the same reasons. Source and live evidence never matter.
pub proof fn lemma_outcome_follows_totals(
    c1: IssuerClaim,
    o1: ObservedState,
    c2: IssuerClaim,
    o2: ObservedState,
)
    requires
        category_set(c1.holders@) == category_set(c2.holders@),
        category_set(o1.holders@) == category_set(o2.holders@),
        forall|c: Seq<char>| #[trigger]
            category_total(c1.holders@, c) == category_total(c2.holders@, c),
        forall|c: Seq<char>| #[trigger]
            category_total(o1.holders@, c) == category_total(o2.holders@, c),
        c1.total_supply == c2.total_supply,
        o1.total_supply == o2.total_supply,
        o1.demo == o2.demo,
        o1.complete == o2.complete,
    ensures
        spec_diff_verdict(c1, o1) == spec_diff_verdict(c2, o2),
        spec_diff_reasons(c1, o1) == spec_diff_reasons(c2, o2),
{
    let (a1, b1, a2, b2) = (c1.holders@, o1.holders@, c2.holders@, o2.holders@);
    assert(sorted_categories(a1) == sorted_categories(a2));
    assert(sorted_categories(b1) == sorted_categories(b2));
    lemma_category_reasons_follow_totals(sorted_categories(a1), a1, b1, a2, b2);
    lemma_category_reasons_follow_totals(sorted_categories(b1), a1, b1, a2, b2);
    assert(comparison_reasons(c1, o1) == comparison_reasons(c2, o2));
}

/// The order of holder entries never matters: claims and observations
/// whose holder lists hold the same entries in any order get the same
/// verdict and the same reasons.
pub proof fn lemma_outcome_ignores_holder_order(
    c1: IssuerClaim,
    o1: ObservedState,
    c2: IssuerClaim,
    o2: ObservedState,
)
    requires
        c1.holders@.to_multiset() == c2.holders@.to_multiset(),
        o1.holders@.to_multiset() == o2.holders@.to_multiset(),
        c1.total_supply == c2.total_supply,
        o1.total_supply == o2.total_supply,
        o1.demo == o2.demo,
        o1.complete == o2.complete,
    ensures
        spec_diff_verdict(c1, o1) == spec_diff_verdict(c2, o2),
        spec_diff_reasons(c1, o1) == spec_diff_reasons(c2, o2),
{
    lemma_reordering_keeps_totals(c1.holders@, c2.holders@);
    lemma_reordering_keeps_totals(o1.holders@, o2.holders@);
    lemma_outcome_follows_totals(c1, o1, c2, o2);
}

/// Splitting one holder entry into two entries of the same category whose
/// amounts add up to it changes neither the verdict nor the reasons.
pub proof fn lemma_outcome_ignores_entry_split(
    claim: IssuerClaim,
    observed: ObservedState,
    claim2: IssuerClaim,
    i: int,
    first: HolderAmount,
    second: HolderAmount,
)
    requires
        0 <= i < claim.holders@.len(),
        first.category@ == claim.holders@[i].category@,
        second.category@ == claim.holders@[i].category@,
        first.amount + second.amount == claim.holders@[i].amount,
        claim2.holders@ == claim.holders@.update(i, first).push(second),
        claim2.total_supply == claim.total_supply,
    ensures
        spec_diff_verdict(claim, observed) == spec_diff_verdict(claim2, observed),
        spec_diff_reasons(claim, observed) == spec_diff_reasons(claim2, observed),
{
    lemma_split_entry_keeps_totals(claim.holders@, i, first, second);
    lemma_outcome_follows_totals(claim, observed, claim2, observed);
}

/// The same holds on the observation's side.
pub proof fn lemma_outcome_ignores_observed_entry_split(
    claim: IssuerClaim,
    observed: ObservedState,
    observed2: ObservedState,
    i: int,
    first: HolderAmount,
    second: HolderAmount,
)
    requires
        0 <= i < observed.holders@.len(),
        first.category@ == observed.holders@[i].category@,
        second.category@ == observed.holders@[i].category@,
        first.amount + second.amount == observed.holders@[i].amount,
        observed2.holders@ == observed.holders@.update(i, first).push(second),
        observed2.total_supply == observed.total_supply,
        observed2.demo == observed.demo,
        observed2.complete == observed.complete,
    ensures
        spec_diff_verdict(claim, observed) == spec_diff_verdict(claim, observed2),
        spec_diff_reasons(claim, observed) == spec_diff_reasons(claim, observed2),
{
    lemma_split_entry_keeps_totals(observed.holders@, i, first, second);
    lemma_outcome_follows_totals(claim, observed, claim, observed2);
}

/// Where an observation came from, and the live evidence recorded with it,
/// never change the verdict or the reasons.
pub proof fn lemma_outcome_ignores_evidence_metadata(
    claim: IssuerClaim,
    observed: ObservedState,
    observed2: ObservedState,
)
    requires
        observed2.holders == observed.holders,
        observed2.total_supply == observed.total_supply,
        observed2.demo == observed.demo,
        observed2.complete == observed.complete,
    ensures
        spec_diff_verdict(claim, observed) == spec_diff_verdict(claim, observed2),
        spec_diff_reasons(claim, observed) == spec_diff_reasons(claim, observed2),
{
}

/// The verdict in full: a fixture-backed observation gives `Demo`, an
/// incomplete one `Incomplete`; a complete one gives `Verified` when the
/// supplies and every category total agree, and `Mismatch` whenever they
/// do not. In particular `Incomplete` is only ever given for an incomplete
/// observation, and a complete observation that contradicts the claim is
/// always a `Mismatch`.
pub proof fn lemma_verdict_table(claim: IssuerClaim, observed: ObservedState)
    ensures
        spec_diff_verdict(claim, observed) == if observed.demo {
            Verdict::Demo
        } else if !observed.complete {
            Verdict::Incomplete
        } else if claim.total_supply == observed.total_supply && holdings_agree(
            claim.holders@,
            observed.holders@,
        ) {
            Verdict::Verified
        } else {
            Verdict::Mismatch
        },
        spec_diff_verdict(claim, observed) == Verdict::Incomplete ==> !observed.complete
            && !observed.demo,
        !observed.demo && observed.complete && (claim.total_supply != observed.total_supply
            || !holdings_agree(claim.holders@, observed.holders@)) ==> spec_diff_verdict(
            claim,
            observed,
        ) == Verdict::Mismatch,
{
    lemma_verified_iff_agreement(claim, observed);
}

/// For a complete observation, the supply reason is reported, and reported
/// first, exactly when the supplies differ.
pub proof fn lemma_supply_reason_first(claim: IssuerClaim, observed: ObservedState)
    requires
        !observed.demo,
        observed.complete,
    ensures
        claim.total_supply != observed.total_supply ==> spec_diff_reasons(claim, observed).len()
            > 0 && spec_diff_reasons(claim, observed)[0] == supply_reason(
            claim.total_supply as nat,
            observed.total_supply as nat,
        ),
        claim.total_supply == observed.total_supply ==> spec_diff_reasons(claim, observed)
            == category_reasons(
            sorted_categories(claim.holders@),
            claim.holders@,
            observed.holders@,
        ) + category_reasons(sorted_categories(observed.holders@), claim.holders@, observed.holders@),
{
    let a = category_reasons(sorted_categories(claim.holders@), claim.holders@, observed.holders@);
    let b = category_reasons(sorted_categories(observed.holders@), claim.holders@, observed.holders@);
    if claim.total_supply == observed.total_supply {
        assert(Seq::<Seq<char>>::empty() + a + b =~= a + b);
    } else {
        let sr = supply_reason(claim.total_supply as nat, observed.total_supply as nat);
        assert((seq![sr] + a + b)[0] == sr);
    }
}

} // verus!
