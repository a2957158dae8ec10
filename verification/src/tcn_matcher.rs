//! The matching engine: which signed reports disclose a contact number that
//! was observed nearby, and when that was.

use crate::errors::ServicesError;
use crate::observed_tcn::ObservedTcn;
use crate::reports_interval::UnixTime;
use crate::signed_report::{verified_report, SignedReport};
use rayon::iter::{IntoParallelRefIterator, ParallelIterator};
use std::collections::HashMap;
use vstd::bytes::{spec_u128_from_le_bytes, u128_from_le_bytes};
use vstd::prelude::*;

verus! {

/// A report that discloses an observed contact number, with the time of the
/// observation.
#[derive(Debug, Clone, PartialEq, Eq)]
pub struct MatchedReport {
    pub report: SignedReport,
    pub contact_time: UnixTime,
}

impl View for MatchedReport {
    type V = (Seq<u8>, UnixTime);

    open spec fn view(&self) -> (Seq<u8>, UnixTime) {
        (self.report@, self.contact_time)
    }
}

/// The key under which the lookup holds a contact number: its 16 bytes read
/// as one number, least significant byte first.
pub open spec fn tcn_key(tcn: [u8; 16]) -> u128 {
    spec_u128_from_le_bytes(tcn@)
}

/// The lookup that is built from the observations in their order: where a
/// contact number was observed more than once, the later observation
/// replaces the earlier.
pub open spec fn lookup_of(observed: Seq<ObservedTcn>) -> Map<u128, ObservedTcn>
    decreases observed.len(),
{
    if observed.len() == 0 {
        Map::empty()
    } else {
        lookup_of(observed.drop_last()).insert(tcn_key(observed.last().tcn), observed.last())
    }
}

/// The time of the observation that the first of `numbers` found in the
/// lookup stands for.
pub open spec fn first_match(lookup: Map<u128, ObservedTcn>, numbers: Seq<[u8; 16]>) -> Option<
    UnixTime,
>
    decreases numbers.len(),
{
    if numbers.len() == 0 {
        None
    } else if lookup.contains_key(tcn_key(numbers.first())) {
        Some(lookup[tcn_key(numbers.first())].time)
    } else {
        first_match(lookup, numbers.drop_first())
    }
}

/// When the device met the sender of the report in `report`, if it did: a
/// report that does not verify matches nothing.
pub open spec fn contact_time_of(lookup: Map<u128, ObservedTcn>, report: Seq<u8>) -> Option<
    UnixTime,
> {
    match verified_report(report) {
        Some((numbers, _)) => first_match(lookup, numbers),
        None => None,
    }
}

/// Whether `outcome` is what matching `report` against the lookup yields.
pub open spec fn is_outcome_of(
    lookup: Map<u128, ObservedTcn>,
    report: Seq<u8>,
    outcome: Option<MatchedReport>,
) -> bool {
    match outcome {
        Some(matched) => contact_time_of(lookup, report) == Some(matched.contact_time)
            && matched.report@ == report,
        None => contact_time_of(lookup, report) is None,
    }
}

/// The bytes of each report of a batch.
pub open spec fn report_views(reports: Seq<SignedReport>) -> Seq<Seq<u8>> {
    reports.map_values(|report: SignedReport| report@)
}

/// Each match of a result, as the bytes of the report and the contact time.
pub open spec fn matched_views(matched: Seq<MatchedReport>) -> Seq<(Seq<u8>, UnixTime)> {
    matched.map_values(|matched: MatchedReport| matched@)
}

/// The matches among the reports of a batch, in the order of the batch: each
/// report that discloses an observed number, once, with its contact time.
pub open spec fn matches_of(lookup: Map<u128, ObservedTcn>, reports: Seq<Seq<u8>>) -> Seq<
    (Seq<u8>, UnixTime),
>
    decreases reports.len(),
{
    if reports.len() == 0 {
        Seq::empty()
    } else {
        let rest = matches_of(lookup, reports.drop_last());
        match contact_time_of(lookup, reports.last()) {
            Some(time) => rest.push((reports.last(), time)),
            None => rest,
        }
    }
}

/// The matches among the outcomes of a batch, in their order.
pub open spec fn matched_of(outcomes: Seq<Option<MatchedReport>>) -> Seq<MatchedReport>
    decreases outcomes.len(),
{
    if outcomes.len() == 0 {
        Seq::empty()
    } else {
        let rest = matched_of(outcomes.drop_last());
        match outcomes.last() {
            Some(matched) => rest.push(matched),
            None => rest,
        }
    }
}

/// The key of a contact number in the lookup.
pub fn key_of(tcn: &[u8; 16]) -> (key: u128)
    ensures
        key == tcn_key(*tcn),
{
    u128_from_le_bytes(tcn.as_slice())
}

/// Builds the lookup from the observations, in their order.
pub fn observed_tcns_map(tcns: &Vec<ObservedTcn>) -> (map: HashMap<u128, ObservedTcn>)
    ensures
        map@ == lookup_of(tcns@),
{
    let mut map: HashMap<u128, ObservedTcn> = HashMap::new();
    let mut index: usize = 0;
    while index < tcns.len()
        invariant
            index <= tcns@.len(),
            map@ == lookup_of(tcns@.take(index as int)),
        decreases tcns@.len() - index,
    {
        let entry: ObservedTcn = tcns[index];
        map.insert(key_of(&entry.tcn), entry);
        proof {
            assert(tcns@.take(index + 1).drop_last() == tcns@.take(index as int));
        }
        index = index + 1;
    }
    assert(tcns@.take(index as int) == tcns@);
    map
}

/// Scans the numbers in their order and stops at the first that the lookup
/// holds.
pub fn find_first_match(map: &HashMap<u128, ObservedTcn>, numbers: &Vec<[u8; 16]>) -> (time:
    Option<UnixTime>)
    ensures
        time == first_match(map@, numbers@),
{
    let mut index: usize = 0;
    assert(numbers@.skip(0) == numbers@);
    while index < numbers.len()
        invariant
            index <= numbers@.len(),
            first_match(map@, numbers@) == first_match(map@, numbers@.skip(index as int)),
        decreases numbers@.len() - index,
    {
        let key: u128 = key_of(&numbers[index]);
        if let Some(entry) = map.get(&key) {
            return Some(entry.time);
        }
        proof {
            assert(numbers@.skip(index as int).drop_first() == numbers@.skip(index + 1));
        }
        index = index + 1;
    }
    None
}

/// Keeps the matches among the outcomes of a batch, in their order, and
/// drops the reports that did not match.
pub fn collect_matches(outcomes: Vec<Option<MatchedReport>>) -> (matched: Vec<MatchedReport>)
    ensures
        matched@ == matched_of(outcomes@),
{
    let mut matched: Vec<MatchedReport> = Vec::new();
    let ghost all = outcomes@;
    for outcome in iter: outcomes.into_iter()
        invariant
            iter.seq() == all,
            matched@ == matched_of(all.take(iter.index())),
    {
        proof {
            assert(all.take(iter.index() + 1).drop_last() == all.take(iter.index()));
        }
        if let Some(found) = outcome {
            matched.push(found);
        }
    }
    assert(all.take(all.len() as int) == all);
    matched
}

/// The matches that are collected from the outcomes of a batch are the
/// matches of the batch.
pub proof fn lemma_matched_of_outcomes(
    lookup: Map<u128, ObservedTcn>,
    reports: Seq<Seq<u8>>,
    outcomes: Seq<Option<MatchedReport>>,
)
    requires
        outcomes.len() == reports.len(),
        forall|i: int| 0 <= i < reports.len() ==> is_outcome_of(lookup, reports[i], outcomes[i]),
    ensures
        matched_views(matched_of(outcomes)) == matches_of(lookup, reports),
    decreases reports.len(),
{
    if reports.len() > 0 {
        lemma_matched_of_outcomes(lookup, reports.drop_last(), outcomes.drop_last());
        assert(is_outcome_of(lookup, reports.last(), outcomes.last()));
    }
    assert(matched_views(matched_of(outcomes)) =~= matches_of(lookup, reports));
}

/// A strategy of matching. Strategies differ in how they spread the work,
/// and so in the order of what they return, not in what they find: where a
/// strategy succeeds, it returns the matches of the batch, each as often as
/// the batch holds its report.
pub trait TcnMatcher {
    fn match_reports(&self, tcns: Vec<ObservedTcn>, reports: Vec<SignedReport>) -> (res: Result<
        Vec<MatchedReport>,
        ServicesError,
    >)
        ensures
            res matches Ok(matched) ==> matched_views(matched@).to_multiset() == matches_of(
                lookup_of(tcns@),
                report_views(reports@),
            ).to_multiset(),
    ;
}

/// Matches the reports of a batch on a bounded pool of workers.
pub struct TcnMatcherRayon {}

/// `rayon`'s `par_iter`, `map` and `collect` on the reports, with
/// `TcnMatcherRayon::match_report_with` as the closure. The contract claims
/// of `rayon` that the closure is called once for each report, and that the
/// results are collected in the order of the reports, as a sequential `map`
/// and `collect` would do; what each result is, the closure's own contract
/// says.
#[verifier::external_body]
fn match_in_parallel(map: &HashMap<u128, ObservedTcn>, reports: &Vec<SignedReport>) -> (outcomes:
    Vec<Option<MatchedReport>>)
    ensures
        outcomes@.len() == reports@.len(),
        forall|i: int|
            0 <= i < reports@.len() ==> is_outcome_of(map@, reports@[i]@, #[trigger] outcomes@[i]),
{
    reports.par_iter().map(|report| TcnMatcherRayon::match_report_with(map, report)).collect()
}

impl TcnMatcher for TcnMatcherRayon {
    fn match_reports(&self, tcns: Vec<ObservedTcn>, reports: Vec<SignedReport>) -> (res: Result<
        Vec<MatchedReport>,
        ServicesError,
    >)
        ensures
            res matches Ok(matched) && matched_views(matched@) == matches_of(
                lookup_of(tcns@),
                report_views(reports@),
            ),
    {
        Self::match_reports_with(tcns, reports)
    }
}

impl TcnMatcherRayon {
    /// Matches each report of the batch against the observations. A report
    /// that does not verify matches nothing; the call itself never fails.
    pub fn match_reports_with(tcns: Vec<ObservedTcn>, reports: Vec<SignedReport>) -> (res: Result<
        Vec<MatchedReport>,
        ServicesError,
    >)
        ensures
            res matches Ok(matched) && matched_views(matched@) == matches_of(
                lookup_of(tcns@),
                report_views(reports@),
            ),
    {
        let observed_tcns_map: HashMap<u128, ObservedTcn> = observed_tcns_map(&tcns);
        let res: Vec<Option<MatchedReport>> = match_in_parallel(&observed_tcns_map, &reports);
        proof {
            lemma_matched_of_outcomes(observed_tcns_map@, report_views(reports@), res@);
        }
        Ok(collect_matches(res))
    }

    /// Verifies the report and scans the numbers that it discloses, in their
    /// order, for the first that was observed.
    pub fn match_report_with(
        observed_tcns_map: &HashMap<u128, ObservedTcn>,
        report: &SignedReport,
    ) -> (out: Option<MatchedReport>)
        ensures
            is_outcome_of(observed_tcns_map@, report@, out),
    {
        match report.verify() {
            Some(rep) => match find_first_match(observed_tcns_map, &rep.temporary_contact_numbers) {
                Some(time) => Some(MatchedReport { report: report.clone(), contact_time: time }),
                None => None,
            },
            None => None,
        }
    }
}

/// Matches the reports of a batch with one task for each report. The tasks
/// are started and joined by the caller, which hands their outcomes to
/// `collect_matches`.
pub struct TcnMatcherStdThreadSpawn {}

impl TcnMatcherStdThreadSpawn {
    /// The work of one task: verifies the report and scans the numbers that
    /// it discloses, in their order, for the first that was observed.
    pub fn match_report_with(
        observed_tcns_map: &HashMap<u128, ObservedTcn>,
        report: SignedReport,
    ) -> (out: Option<MatchedReport>)
        ensures
            is_outcome_of(observed_tcns_map@, report@, out),
            out matches Some(matched) ==> matched.report == report,
    {
        match report.verify() {
            Some(rep) => match find_first_match(observed_tcns_map, &rep.temporary_contact_numbers) {
                Some(time) => Some(MatchedReport { report, contact_time: time }),
                None => None,
            },
            None => None,
        }
    }
}

} // verus!
