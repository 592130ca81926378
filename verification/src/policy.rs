//! Cache trust and persistence policy.
//!
//! A session restores caches persisted by an earlier session only when the
//! waveform source file is provably unchanged and the cached working set was
//! large enough for restoring to pay off; it persists them at the end only
//! when the same size condition holds and something new was added.

use vstd::prelude::*;

verus! {

/// Identity of the waveform source file at one moment: its size in bytes
/// and its modification timestamp in seconds. Both fields must be equal for
/// the file to count as unchanged; a changed size or timestamp invalidates
/// trust in every persisted cache.
#[derive(PartialEq, Eq, Structural, Clone, Copy, Debug)]
pub struct FileFingerprint {
    pub size: u64,
    pub time: u64,
}

/// Number of distinct cached signal references at which persisting and
/// restoring the caches starts to pay off. Below it a session runs cold.
pub const SIGNAL_REF_COUNT_THRESHOLD: usize = 15;

/// What a session should do, at startup, with caches persisted earlier.
#[derive(PartialEq, Eq, Structural, Clone, Copy, Debug)]
pub struct TrustDecision {
    /// The persisted caches may be restored.
    pub trust_caches: bool,
    /// The fingerprint record is missing or stale and must be overwritten
    /// with the current fingerprint.
    pub record_fingerprint: bool,
}

/// Whether caches persisted by an earlier session are to be trusted, given
/// the persisted fingerprint (if any), the current one, and the persisted
/// reference count (if any).
pub open spec fn spec_trust_caches(
    stored: Option<FileFingerprint>,
    current: FileFingerprint,
    stored_ref_count: Option<usize>,
) -> bool {
    match stored {
        None => false,
        Some(f) => f == current && match stored_ref_count {
            None => true,
            Some(c) => c >= SIGNAL_REF_COUNT_THRESHOLD,
        },
    }
}

/// Decide, at session start, whether the persisted caches are trusted and
/// whether the fingerprint record has to be rewritten.
///
/// A missing fingerprint record means a first-ever run: the current
/// fingerprint is recorded and the caches count as empty. A differing
/// fingerprint means the file changed: the new fingerprint is recorded and
/// no cache is trusted. With an unchanged fingerprint, the caches are
/// trusted only if the reference count persisted by the previous session
/// reaches the threshold; a missing count record defaults to trust.
pub fn decide_cache_trust(
    stored: Option<FileFingerprint>,
    current: FileFingerprint,
    stored_ref_count: Option<usize>,
) -> (d: TrustDecision)
    ensures
        d.trust_caches == spec_trust_caches(stored, current, stored_ref_count),
        d.record_fingerprint == (stored != Some(current)),
{
    match stored {
        None => TrustDecision { trust_caches: false, record_fingerprint: true },
        Some(f) => {
            if f != current {
                TrustDecision { trust_caches: false, record_fingerprint: true }
            } else {
                let trust = match stored_ref_count {
                    None => true,
                    Some(c) => c >= SIGNAL_REF_COUNT_THRESHOLD,
                };
                TrustDecision { trust_caches: trust, record_fingerprint: false }
            }
        },
    }
}

/// Cache trust is a pure function of two conditions: whether the stored
/// fingerprint equals the current one, and whether the stored reference
/// count reaches the threshold. Two inputs that agree on both conditions
/// get the same decision.
pub proof fn lemma_trust_is_pure_function_of_conditions(
    f1: FileFingerprint,
    c1: FileFingerprint,
    n1: usize,
    f2: FileFingerprint,
    c2: FileFingerprint,
    n2: usize,
)
    requires
        (f1 == c1) == (f2 == c2),
        (n1 >= SIGNAL_REF_COUNT_THRESHOLD) == (n2 >= SIGNAL_REF_COUNT_THRESHOLD),
    ensures
        spec_trust_caches(Some(f1), c1, Some(n1)) == spec_trust_caches(Some(f2), c2, Some(n2)),
{
}

/// Whether the caches are to be persisted when the session ends: only when
/// the reference cache reached the threshold and this session added a new
/// reference. Otherwise writing would be needless, or would overwrite a
/// still-valid cache with a strict subset.
pub open spec fn spec_should_persist(ref_count: usize, has_newly_added_ref: bool) -> bool {
    ref_count >= SIGNAL_REF_COUNT_THRESHOLD && has_newly_added_ref
}

/// Decide, at session end, whether the caches are written out.
pub fn should_persist_caches(ref_count: usize, has_newly_added_ref: bool) -> (r: bool)
    ensures
        r == spec_should_persist(ref_count, has_newly_added_ref),
{
    ref_count >= SIGNAL_REF_COUNT_THRESHOLD && has_newly_added_ref
}

} // verus!
