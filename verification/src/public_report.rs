//! What a report tells the public about its sender's symptoms, and the memo
//! that carries it inside a signed report.

use crate::reports_interval::UnixTime;
use vstd::prelude::*;

verus! {

/// How high the fever is.
#[derive(Debug, Clone, Copy, PartialEq, Eq, Structural)]
pub enum FeverSeverity {
    Absent,
    Mild,
    Serious,
}

/// What kind of cough there is.
#[derive(Debug, Clone, Copy, PartialEq, Eq, Structural)]
pub enum CoughSeverity {
    Absent,
    Existing,
    Wet,
    Dry,
}

/// The symptoms that the sender of a report made public.
#[derive(Debug, Clone, PartialEq, Eq)]
pub struct PublicReport {
    pub earliest_symptom_time: Option<UnixTime>,
    pub fever_severity: FeverSeverity,
    pub breathlessness: bool,
    pub cough_severity: CoughSeverity,
}

/// The memo of a report, as the bytes that the report carries.
#[derive(Debug, Clone, PartialEq, Eq)]
pub struct Memo {
    pub bytes: Vec<u8>,
}

/// Reads the public report out of a memo.
pub trait MemoMapper {
    fn to_report(&self, memo: Memo) -> PublicReport;
}

} // verus!
