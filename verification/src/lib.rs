//! Recomputation of Liquid/AMP asset claims against watch-only observations,
//! with the verdict rules, CAB bundle assembly and descriptor guard they rest on.

pub mod amp_asset;
pub mod cab_bridge;
pub mod canonical;
pub mod cli;
pub mod descriptor;
pub mod digest;
pub mod holders;
pub mod order;
pub mod recompute;
pub mod scan;
pub mod text;
pub mod verdict;

pub use amp_asset::{AmpAssetScope, AmpMode};
pub use cab_bridge::{CabBundle, CabClaim, CabSubject, EvidenceSource};
pub use canonical::claim_json_bytes;
pub use cli::{descriptor_scope, example_bundle, scan_verdict};
pub use descriptor::{DescriptorError, WatchOnlyDescriptor};
pub use digest::{claim_hash, digest_hex};
pub use holders::{holder_totals_fit, normalize_holders, CategoryTotal};
pub use recompute::{
    diff_claim, DiffResult, HolderAmount, IssuerClaim, LiveEvidence, ObservedState, RecomputeError,
};
pub use scan::{
    asset_id_parse_outcome, descriptor_parse_outcome, electrum_endpoint, observed_from_live_scan,
    prepare_live_scan, prepare_lwk_scan, scan_asset_id, scan_live, scan_live_incomplete, ScanError,
    ScanRequest,
};
pub use verdict::{ExitCode, Verdict};
