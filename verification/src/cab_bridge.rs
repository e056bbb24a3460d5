use time::format_description::well_known::Rfc3339;
use time::OffsetDateTime;
use vstd::prelude::*;

use crate::digest::{claim_digest_text, claim_hash};
use crate::recompute::{diff_matches, DiffResult, IssuerClaim, ObservedState};
use crate::verdict::Verdict;

verus! {

/// A CAB-compatible evidence bundle: the claim, what was observed, and the
/// verdict reached on them.
#[derive(Clone, Debug, PartialEq, Eq)]
pub struct CabBundle {
    pub cab_version: String,
    pub subject: CabSubject,
    pub claim: CabClaim,
    pub observed: ObservedState,
    pub verdict: Verdict,
    pub reasons: Vec<String>,
    pub evidence: EvidenceSource,
    pub generated_at: String,
}

/// The asset a bundle is about.
#[derive(Clone, Debug, PartialEq, Eq)]
pub struct CabSubject {
    pub asset_id: String,
    pub network: String,
}

/// The claimed supply and the digest of the full claim.
#[derive(Clone, Debug, PartialEq, Eq)]
pub struct CabClaim {
    pub total_supply: u64,
    pub claim_sha256: String,
}

/// How the observation behind a bundle was obtained. It holds no text
/// derived from the descriptor.
#[derive(Clone, Debug, PartialEq, Eq)]
pub struct EvidenceSource {
    pub mode: String,
    pub source: String,
}

#[verifier::external_type_specification]
#[verifier::external_body]
pub struct ExOffsetDateTime(OffsetDateTime);

#[verifier::external_type_specification]
#[verifier::external_body]
pub struct ExFormatError(time::error::Format);

/// `time::OffsetDateTime::now_utc`: the current time; nothing is stated of it.
#[verifier::external_body]
fn now_utc() -> OffsetDateTime {
    OffsetDateTime::now_utc()
}

/// An ASCII decimal digit.
pub open spec fn is_digit(c: char) -> bool {
    '0' <= c <= '9'
}

/// Empty, or a point followed by at least one digit.
pub open spec fn is_fraction(f: Seq<char>) -> bool {
    f.len() == 0 || (f.len() >= 2 && f[0] == '.' && forall|i: int|
        1 <= i < f.len() ==> is_digit(#[trigger] f[i]))
}

/// `Z`, or a sign, two digits, a colon and two digits.
pub open spec fn is_offset(o: Seq<char>) -> bool {
    ||| o == seq!['Z']
    ||| {
        &&& o.len() == 6
        &&& (o[0] == '+' || o[0] == '-')
        &&& is_digit(o[1]) && is_digit(o[2])
        &&& o[3] == ':'
        &&& is_digit(o[4]) && is_digit(o[5])
    }
}

/// RFC 3339 date-time text: `YYYY-MM-DDThh:mm:ss`, an optional fraction of
/// a second, and the offset.
pub open spec fn is_rfc3339(s: Seq<char>) -> bool {
    &&& s.len() >= 20
    &&& is_digit(s[0]) && is_digit(s[1]) && is_digit(s[2]) && is_digit(s[3])
    &&& s[4] == '-' && is_digit(s[5]) && is_digit(s[6])
    &&& s[7] == '-' && is_digit(s[8]) && is_digit(s[9])
    &&& s[10] == 'T' && is_digit(s[11]) && is_digit(s[12])
    &&& s[13] == ':' && is_digit(s[14]) && is_digit(s[15])
    &&& s[16] == ':' && is_digit(s[17]) && is_digit(s[18])
    &&& exists|k: int|
        19 <= k <= s.len() && is_fraction(#[trigger] s.subrange(19, k)) && is_offset(
            s.subrange(k, s.len() as int),
        )
}

/// `time::OffsetDateTime::format` with the RFC 3339 description: the time as
/// RFC 3339 text (four-digit year, two-digit fields, the fraction only when
/// the nanoseconds are not zero, `Z` or a `+hh:mm`/`-hh:mm` offset), or the
/// crate's formatting error for years outside 0..=9999 and offsets it cannot
/// write; which one comes back depends on the time, so it is not stated.
#[verifier::external_body]
fn format_rfc3339(t: &OffsetDateTime) -> (r: Result<String, time::error::Format>)
    ensures
        r matches Ok(s) ==> is_rfc3339(s@),
{
    t.format(&Rfc3339)
}

/// The Unix epoch fallback is itself RFC 3339 text.
pub proof fn lemma_epoch_is_rfc3339()
    ensures
        is_rfc3339(epoch_timestamp()),
{
    reveal_strlit("1970-01-01T00:00:00Z");
    let s = epoch_timestamp();
    assert(s.subrange(19, 19) =~= Seq::<char>::empty());
    assert(s.subrange(19, 20) =~= seq!['Z']);
    assert(is_fraction(s.subrange(19, 19)));
}

/// The evidence mode recorded for an observation.
pub open spec fn evidence_mode(observed: ObservedState) -> Seq<char> {
    if observed.demo {
        "DEMO"@
    } else {
        "LIVE_OR_REPLAY"@
    }
}

/// The timestamp recorded when the current time could not be formatted.
pub open spec fn epoch_timestamp() -> Seq<char> {
    "1970-01-01T00:00:00Z"@
}

/// Every field of `b` but the timestamp is the one assembled from the
/// claim, the observation, the comparison and the network.
pub open spec fn bundle_records(
    claim: IssuerClaim,
    observed: ObservedState,
    diff: DiffResult,
    network: Seq<char>,
    b: CabBundle,
) -> bool {
    &&& b.cab_version@ == "0.1-compatible"@
    &&& b.subject.asset_id@ == claim.asset_id@
    &&& b.subject.network@ == network
    &&& b.claim.total_supply == claim.total_supply
    &&& b.claim.claim_sha256@ == claim_digest_text(claim)
    &&& b.observed == observed
    &&& b.verdict == diff.verdict
    &&& b.reasons == diff.reasons
    &&& b.evidence.mode@ == evidence_mode(observed)
    &&& b.evidence.source@ == "liquid-witness"@
}

impl CabBundle {
    /// Assembles a bundle stamped with `formatted_now`, the current time as
    /// RFC 3339 text, or with the Unix epoch where there is none.
    pub fn from_diff_at(
        claim: &IssuerClaim,
        observed: ObservedState,
        diff: DiffResult,
        network: String,
        formatted_now: Option<String>,
    ) -> (b: CabBundle)
        ensures
            bundle_records(*claim, observed, diff, network@, b),
            b.generated_at@ == match formatted_now {
                Some(t) => t@,
                None => epoch_timestamp(),
            },
    {
        let generated_at = match formatted_now {
            Some(t) => t,
            None => String::from_str("1970-01-01T00:00:00Z"),
        };
        let mode = if observed.demo {
            String::from_str("DEMO")
        } else {
            String::from_str("LIVE_OR_REPLAY")
        };
        CabBundle {
            cab_version: String::from_str("0.1-compatible"),
            subject: CabSubject { asset_id: claim.asset_id.clone(), network },
            claim: CabClaim {
                total_supply: claim.total_supply,
                claim_sha256: claim_hash(claim),
            },
            observed,
            verdict: diff.verdict,
            reasons: diff.reasons,
            evidence: EvidenceSource {
                mode,
                source: String::from_str("liquid-witness"),
            },
            generated_at,
        }
    }

    /// Assembles a bundle stamped with the current time as RFC 3339 text
    /// (the Unix epoch where the time cannot be formatted). The descriptor
    /// scope is not recorded: nothing of the bundle depends on it.
    pub fn from_diff(
        claim: &IssuerClaim,
        observed: ObservedState,
        diff: DiffResult,
        network: String,
        _descriptor_scope: String,
    ) -> (b: CabBundle)
        ensures
            bundle_records(*claim, observed, diff, network@, b),
    {
        let now = now_utc();
        let formatted_now = match format_rfc3339(&now) {
            Ok(t) => Some(t),
            Err(_) => None,
        };
        proof {
            lemma_epoch_is_rfc3339();
        }
        CabBundle::from_diff_at(claim, observed, diff, network, formatted_now)
    }
}

/// A bundle built from the comparison of its own claim and observation
/// keeps the evidence boundary: it is marked `DEMO` exactly when its
/// verdict is `Demo`, which is exactly when the observation is
/// fixture-backed.
pub proof fn lemma_bundle_demo_boundary(
    claim: IssuerClaim,
    observed: ObservedState,
    diff: DiffResult,
    network: Seq<char>,
    b: CabBundle,
)
    requires
        diff_matches(claim, observed, diff),
        bundle_records(claim, observed, diff, network, b),
    ensures
        b.verdict == Verdict::Demo <==> observed.demo,
        b.evidence.mode@ == "DEMO"@ <==> observed.demo,
        b.observed.demo ==> b.verdict != Verdict::Verified,
{
    reveal_strlit("DEMO");
    reveal_strlit("LIVE_OR_REPLAY");
    assert("DEMO"@.len() != "LIVE_OR_REPLAY"@.len());
}

} // verus!
