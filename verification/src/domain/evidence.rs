//! Evidence: source material backing an assertion.

use vstd::prelude::*;
use crate::domain::time::Timestamp;

verus! {

/// Source material backing an assertion (`source:detail`).
#[derive(Debug, Clone, PartialEq, Eq)]
pub struct Evidence {
    pub id: String,
    pub assertion_id: String,
    pub source: String,
    pub detail: String,
    pub created_at: Timestamp,
}

} // verus!
