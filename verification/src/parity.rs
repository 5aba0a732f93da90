//! Reports of a query-projection replay parity run.

use vstd::prelude::*;

verus! {

/// Summary of a query-projection replay parity verification run.
#[derive(Clone, Debug, PartialEq, Eq)]
pub struct QueryProjectionReplayParityReport {
    /// Tenant whose persisted journals and projection rows were compared.
    pub tenant: String,
    /// Optional entity type scope applied to this verifier run.
    pub entity_type: Option<String>,
    /// Optional maximum number of entities considered by this verifier run.
    pub entity_limit: Option<u64>,
    /// Number of persisted entities considered by the verifier.
    pub checked: u64,
    /// Number of non-deleted entities whose projection row matched replayed state.
    pub matched: u64,
    /// Number of entities whose projection row diverged from replayed state.
    pub drifted: u64,
    /// Number of active entities missing from the projection catalog.
    pub missing: u64,
    /// Number of replayed deleted entities correctly absent from the catalog.
    pub deleted_absent: u64,
    /// Number of entities the verifier could not compare because of a store or spec error.
    pub errors: u64,
    /// Bounded sample of drift/error examples for operator diagnosis.
    pub drift_examples: Vec<QueryProjectionReplayParityDrift>,
}

impl QueryProjectionReplayParityReport {
    /// Returns true when every checked entity matched the projection contract.
    pub fn is_clean(&self) -> (r: bool)
        ensures
            r == (self.drifted == 0 && self.missing == 0 && self.errors == 0),
    {
        self.drifted == 0 && self.missing == 0 && self.errors == 0
    }
}

impl Default for QueryProjectionReplayParityReport {
    fn default() -> (r: Self)
        ensures
            r.tenant@ == Seq::<char>::empty(),
            r.entity_type is None,
            r.entity_limit is None,
            r.checked == 0,
            r.matched == 0,
            r.drifted == 0,
            r.missing == 0,
            r.deleted_absent == 0,
            r.errors == 0,
            r.drift_examples@ == Seq::<QueryProjectionReplayParityDrift>::empty(),
    {
        QueryProjectionReplayParityReport {
            tenant: String::new(),
            entity_type: None,
            entity_limit: None,
            checked: 0,
            matched: 0,
            drifted: 0,
            missing: 0,
            deleted_absent: 0,
            errors: 0,
            drift_examples: Vec::new(),
        }
    }
}

/// One bounded replay parity drift or error example.
#[derive(Clone, Debug, PartialEq, Eq)]
pub struct QueryProjectionReplayParityDrift {
    /// Entity type whose projection diverged from replayed state.
    pub entity_type: String,
    /// Entity identifier for targeted repair.
    pub entity_id: String,
    /// Drift class, such as `fields`, `sequence`, `missing_catalog`, or `deleted_present`.
    pub drift_kind: String,
    /// Sequence relationship between catalog and replayed state.
    pub sequence_direction: String,
    /// Absolute sequence gap when both sides have sequence numbers.
    pub sequence_gap: u64,
    /// Sequence number currently stored in the projection catalog, when a row exists.
    pub catalog_sequence: Option<u64>,
    /// Sequence number recovered from authoritative event replay.
    pub authoritative_sequence: u64,
}

/// Anything that drifted, is missing or could not be compared is enough for a
/// comparison not to be clean.
pub proof fn one_difference_is_enough(report: &QueryProjectionReplayParityReport, r: bool)
    requires
        call_ensures(QueryProjectionReplayParityReport::is_clean, (report,), r),
    ensures
        report.drifted > 0 || report.missing > 0 || report.errors > 0 ==> !r,
        report.drifted == 0 && report.missing == 0 && report.errors == 0 ==> r,
{
}

} // verus!
