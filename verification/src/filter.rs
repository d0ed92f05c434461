//! The match filter: a parsed status satisfies the criteria exactly when the
//! slot capacity equals the target and the normalized description text is
//! non-empty and byte-for-byte equal to the target motd. No partial,
//! substring or case-insensitive matching — the motd is a fixed fingerprint.
use vstd::prelude::*;

use crate::status::{StatusResponse, StatusView};

verus! {

/// The scan's target criteria, fixed for the whole run.
pub struct MatchCriteria {
    pub target_slot_count: u32,
    pub target_motd: String,
}

/// Exact-match semantics of the filter.
pub open spec fn spec_matches(st: StatusView, target_slot_count: u32, target_motd: Seq<char>) -> bool {
    &&& st.max_players == target_slot_count
    &&& st.description_text.len() > 0
    &&& st.description_text == target_motd
}

/// Decides whether `status` satisfies `criteria`, mirroring [`spec_matches`].
pub fn matches_criteria(status: &StatusResponse, criteria: &MatchCriteria) -> (r: bool)
    ensures
        r == spec_matches(status@, criteria.target_slot_count, criteria.target_motd@),
{
    if status.players.max != criteria.target_slot_count {
        return false;
    }
    let text = status.description.text();
    if text.as_str().is_empty() {
        return false;
    }
    *text == criteria.target_motd
}

} // verus!
