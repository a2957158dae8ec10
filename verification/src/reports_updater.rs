//! Fetching newly published reports window by window, matching them against
//! the observations, and keeping the checkpoint of the last completed window.

use crate::errors::{NetworkingError, ServicesError};
use crate::matching_laws::lemma_matches_count;
use crate::observed_tcn::{ObservedTcn, TcnDao};
use crate::public_report::{Memo, MemoMapper, PublicReport};
use crate::reports_interval::{
    generate_intervals_sequence, is_interval_sequence, ReportsInterval, UnixTime,
    DEFAULT_INTERVAL_LENGTH,
};
use crate::signed_report::{base64_decoded, reads_as_signed_report, verified_report, SignedReport};
use crate::tcn_matcher::{
    contact_time_of, lookup_of, matched_views, matches_of, report_views, MatchedReport,
    TcnMatcher,
};
use std::sync::Arc;
use vstd::prelude::*;

verus! {

/// The values that the preferences keep.
#[derive(Debug, Clone, Copy, PartialEq, Eq, Structural)]
pub enum PreferencesKey {
    LastCompletedReportsInterval,
}

/// Keeps the checkpoint of the last completed window between passes.
pub trait Preferences {
    fn last_completed_reports_interval(&self, key: PreferencesKey) -> Option<ReportsInterval>;

    fn set_last_completed_reports_interval(&self, key: PreferencesKey, value: ReportsInterval);
}

/// The service that hands out the reports published in a window, each as a
/// text in base64.
pub trait TcnApi {
    fn get_reports(&self, interval_number: u64, interval_length: u64) -> Result<
        Vec<String>,
        NetworkingError,
    >;
}

/// What the user is told of a matched report.
#[derive(Debug, Clone, PartialEq, Eq)]
pub struct Alert {
    pub id: String,
    pub report: PublicReport,
    pub contact_time: u64,
}

/// The reports of one window.
#[derive(Debug, Clone)]
pub struct SignedReportsChunk {
    pub reports: Vec<SignedReport>,
    pub interval: ReportsInterval,
}

/// The reports of one window, and those among them that matched.
#[derive(Debug, Clone)]
pub struct MatchedReportsChunk {
    pub reports: Vec<SignedReport>,
    pub matched: Vec<MatchedReport>,
    pub interval: ReportsInterval,
}

/// `uuid::Uuid::new_v4`, written out by its `Debug` form: an identifier
/// drawn at random. Nothing is claimed of it.
#[verifier::external_body]
fn random_alert_id() -> String {
    format!("{:?}", uuid::Uuid::new_v4())
}

/// Brings the device up to date with the published reports: a pass fetches
/// the windows since the checkpoint, one after the other, matches their
/// reports against the observations, and moves the checkpoint on.
pub struct ReportsUpdater<
    'a,
    PreferencesType: Preferences,
    TcnDaoType: TcnDao,
    TcnMatcherType: TcnMatcher,
    ApiType: TcnApi,
    MemoMapperType: MemoMapper,
> {
    pub preferences: Arc<PreferencesType>,
    pub tcn_dao: &'a TcnDaoType,
    pub tcn_matcher: TcnMatcherType,
    pub api: &'a ApiType,
    pub memo_mapper: &'a MemoMapperType,
}

impl<
    'a,
    PreferencesType: Preferences,
    TcnDaoType: TcnDao,
    TcnMatcherType: TcnMatcher,
    ApiType: TcnApi,
    MemoMapperType: MemoMapper,
> ReportsUpdater<'a, PreferencesType, TcnDaoType, TcnMatcherType, ApiType, MemoMapperType> {
    /// The checkpoint, if the preferences hold one that is a window with a
    /// successor. What the preferences hold is theirs to say; what counts
    /// of it as a checkpoint, `valid_checkpoint` says.
    fn retrieve_last_completed_interval(&self) -> (last: Option<ReportsInterval>)
        ensures
            last matches Some(interval) ==> interval.wf() && interval.number < u64::MAX,
    {
        valid_checkpoint(
            self.preferences.last_completed_reports_interval(
                PreferencesKey::LastCompletedReportsInterval,
            ),
        )
    }

    /// Asks the distribution service for the reports of a window. Whether
    /// the window can be had is the service's to say; what its answer makes
    /// of reports, `signed_reports_chunk` says.
    fn retrieve_reports(&self, interval: ReportsInterval) -> (res: Result<
        SignedReportsChunk,
        NetworkingError,
    >)
        ensures
            res matches Ok(chunk) ==> chunk.interval == interval,
    {
        signed_reports_chunk(interval, self.api.get_reports(interval.number, interval.length))
    }

    /// Matches the reports of a window, if the window could be retrieved.
    fn match_retrieved_reports_result(
        &self,
        reports_result: Result<SignedReportsChunk, NetworkingError>,
    ) -> (res: Result<MatchedReportsChunk, ServicesError>)
        ensures
            match reports_result {
                Ok(chunk) => res matches Ok(matched) ==> matched.interval == chunk.interval
                    && matched.reports == chunk.reports && is_matched_chunk(matched),
                Err(error) => res == Err::<MatchedReportsChunk, ServicesError>(
                    ServicesError::Networking(error),
                ),
            },
    {
        match reports_result {
            Ok(chunk) => self.to_matched_reports_chunk(chunk),
            Err(error) => Err(ServicesError::Networking(error)),
        }
    }

    /// Adds to the reports of a window those among them that match, in
    /// whatever order: the matches of these reports against what the log
    /// holds. Whether the log can be read and the reports matched is for
    /// the log and the matcher to say.
    fn to_matched_reports_chunk(&self, chunk: SignedReportsChunk) -> (res: Result<
        MatchedReportsChunk,
        ServicesError,
    >)
        ensures
            res matches Ok(matched) ==> matched.interval == chunk.interval && matched.reports
                == chunk.reports && is_matched_chunk(matched),
    {
        let found = self.find_matches(copy_of_reports(&chunk.reports));
        matched_reports_chunk(chunk, found)
    }

    /// Retrieves and matches the reports of each window from `start_interval`
    /// on that starts before `until`, one window after the other. The first
    /// window that fails ends the pass: no later window is asked for, and
    /// what the earlier windows gave is dropped.
    fn matching_reports(&self, start_interval: ReportsInterval, until: &UnixTime) -> (res: Result<
        Vec<MatchedReportsChunk>,
        ServicesError,
    >)
        requires
            start_interval.wf(),
        ensures
            !start_interval.spec_starts_before(until) ==> (res matches Ok(chunks) && chunks@.len()
                == 0),
            res matches Ok(chunks) ==> is_interval_sequence(
                intervals_of(chunks@),
                start_interval,
                *until,
            ) && (forall|i: int|
                0 <= i < chunks@.len() ==> is_matched_chunk(#[trigger] chunks@[i])),
    {
        let sequence: Vec<ReportsInterval> = generate_intervals_sequence(start_interval, until);
        let mut chunks: Vec<MatchedReportsChunk> = Vec::new();
        let mut index: usize = 0;
        while index < sequence.len()
            invariant
                index <= sequence@.len(),
                sequence@.len() == 0 <==> !start_interval.spec_starts_before(until),
                intervals_of(chunks@) == sequence@.take(index as int),
                forall|i: int| 0 <= i < chunks@.len() ==> is_matched_chunk(#[trigger] chunks@[i]),
            decreases sequence@.len() - index,
        {
            let reports = self.retrieve_reports(sequence[index]);
            match self.match_retrieved_reports_result(reports) {
                Ok(chunk) => {
                    assert(chunk.interval == sequence@[index as int]);
                    let ghost before = chunks@;
                    chunks.push(chunk);
                    assert(intervals_of(chunks@) =~= intervals_of(before).push(chunk.interval));
                },
                Err(error) => {
                    return Err(error);
                },
            }
            index = index + 1;
            assert(sequence@.take(index as int) =~= sequence@.take(index - 1).push(
                sequence@[index - 1],
            ));
        }
        assert(sequence@.take(index as int) == sequence@);
        Ok(chunks)
    }

    /// Keeps as the checkpoint the last of the windows that is over at `now`.
    /// A window that is still running is left to the next pass.
    fn store_last_completed_interval(&self, intervals: Vec<ReportsInterval>, now: &UnixTime) {
        if let Some(interval) = interval_ending_before(&intervals, now) {
            self.preferences.set_last_completed_reports_interval(
                PreferencesKey::LastCompletedReportsInterval,
                interval,
            );
        }
    }

    /// One pass: the matches of all windows since the checkpoint. The
    /// checkpoint moves only where every window was retrieved and matched.
    ///
    /// Which windows there are, what they hold and what was observed, the
    /// clock and the collaborators say. Whatever they say, what a pass
    /// returns are matches: each carries a report that verifies, and the
    /// time at which the log held the first observed number of that report.
    fn retrieve_and_match_new_reports(&self) -> (res: Result<Vec<MatchedReport>, ServicesError>)
        ensures
            res matches Ok(matched) ==> forall|i: int|
                0 <= i < matched@.len() ==> is_match_of_some_log((#[trigger] matched@[i])@),
    {
        let now: UnixTime = UnixTime::now();
        let start: ReportsInterval = determine_start_interval(
            self.retrieve_last_completed_interval(),
            &now,
        );
        match self.matching_reports(start, &now) {
            Ok(chunks) => {
                self.store_last_completed_interval(chunk_intervals(&chunks), &now);
                proof {
                    lemma_matched_in_chunks(chunks@);
                }
                Ok(all_matched(chunks))
            },
            Err(error) => Err(error),
        }
    }

    /// What the user is told of a matched report: the report is verified
    /// once more for its memo, and one that does not verify yields nothing.
    /// The alert carries what the memo mapper reads out of the memo, and an
    /// identifier drawn at random.
    fn to_ffi_alert(&self, matched_report: MatchedReport) -> (alert: Option<Alert>)
        ensures
            match alert {
                Some(alert) => verified_report(matched_report.report@) is Some
                    && alert.contact_time == matched_report.contact_time.value,
                None => verified_report(matched_report.report@) is None,
            },
    {
        match memo_of(&matched_report.report) {
            Some(memo) => Some(
                Alert {
                    id: random_alert_id(),
                    report: self.memo_mapper.to_report(memo),
                    contact_time: matched_report.contact_time.value,
                },
            ),
            None => None,
        }
    }

    /// The alerts of the matched reports, in their order: one for each
    /// report that verifies once more, with the contact time of the match.
    pub fn alerts_of(&self, matched_reports: Vec<MatchedReport>) -> (alerts: Vec<Alert>)
        ensures
            alert_times(alerts@) == verified_times(matched_views(matched_reports@)),
    {
        let mut alerts: Vec<Alert> = Vec::new();
        let ghost all = matched_views(matched_reports@);
        for matched_report in iter: matched_reports.into_iter()
            invariant
                matched_views(iter.seq()) == all,
                alert_times(alerts@) == verified_times(all.take(iter.index())),
        {
            proof {
                assert(all.take(iter.index() + 1).drop_last() == all.take(iter.index()));
                assert(all.take(iter.index() + 1).last() == matched_report@);
            }
            if let Some(alert) = self.to_ffi_alert(matched_report) {
                alerts.push(alert);
                assert(alert_times(alerts@) =~= verified_times(all.take(iter.index() + 1)));
            }
        }
        assert(all.take(all.len() as int) == all);
        alerts
    }

    /// Fetches the reports published since the last pass, matches them
    /// against the observations, and turns each match into an alert.
    ///
    /// The pass either gives all its alerts, or fails as a whole: on the
    /// first window that cannot be retrieved or matched, no alert is given
    /// and the checkpoint stays where it was.
    ///
    /// Which windows there are, what they hold and what was observed, the
    /// clock and the collaborators say. Whatever they say, each alert of a
    /// pass tells of a match: of a report that verifies, at the time at
    /// which the log held the first observed number of that report.
    pub fn fetch_new_reports(&self) -> (res: Result<Vec<Alert>, ServicesError>)
        ensures
            res matches Ok(alerts) ==> forall|i: int|
                0 <= i < alerts@.len() ==> tells_of_a_match(#[trigger] alerts@[i]),
    {
        match self.retrieve_and_match_new_reports() {
            Ok(matched_reports) => {
                let ghost matched = matched_views(matched_reports@);
                proof {
                    assert forall|i: int| 0 <= i < matched.len() implies is_match_of_some_log(
                        #[trigger] matched[i],
                    ) by {
                        assert(matched[i] == matched_reports@[i]@);
                    }
                    lemma_times_of_matches(matched);
                }
                let alerts = self.alerts_of(matched_reports);
                proof {
                    assert(alert_times(alerts@).len() == alerts@.len());
                    assert(times_of(matched).len() == matched.len());
                    assert forall|i: int| 0 <= i < alerts@.len() implies tells_of_a_match(
                        #[trigger] alerts@[i],
                    ) by {
                        assert(alert_times(alerts@)[i] == alerts@[i].contact_time);
                        assert(times_of(matched)[i] == matched[i].1.value);
                        assert(is_alert_of(alerts@[i], matched[i]));
                    }
                }
                Ok(alerts)
            },
            Err(error) => Err(error),
        }
    }

    /// Matches the reports of a window against all observations in the log.
    /// Whether the log can be read and the reports matched is for the log
    /// and the matcher to say; where they can, the result holds the matches
    /// of the reports against what the log held, in whatever order.
    fn find_matches(&self, reports: Vec<SignedReport>) -> (res: Result<
        Vec<MatchedReport>,
        ServicesError,
    >)
        ensures
            res matches Ok(matched) ==> are_matches_of_some_log(
                matched_views(matched@),
                report_views(reports@),
            ),
    {
        match self.tcn_dao.all() {
            Ok(tcns) => {
                let ghost observed = tcns@;
                let ghost batch = report_views(reports@);
                let matched = self.tcn_matcher.match_reports(tcns, reports);
                proof {
                    if matched is Ok {
                        assert(are_matches_of(
                            matched_views(matched.unwrap()@),
                            observed,
                            batch,
                        ));
                    }
                }
                matched
            },
            Err(error) => Err(error),
        }
    }
}

/// Whether `matched` holds the matches of the reports against the
/// observations, each as often as its report is among the reports, in
/// whatever order.
pub open spec fn are_matches_of(
    matched: Seq<(Seq<u8>, UnixTime)>,
    observed: Seq<ObservedTcn>,
    reports: Seq<Seq<u8>>,
) -> bool {
    matched.to_multiset() == matches_of(lookup_of(observed), reports).to_multiset()
}

/// Whether `matched` holds the matches of the reports against what the log
/// held when it was read, whatever that was.
pub open spec fn are_matches_of_some_log(
    matched: Seq<(Seq<u8>, UnixTime)>,
    reports: Seq<Seq<u8>>,
) -> bool {
    exists|observed: Seq<ObservedTcn>| #[trigger] are_matches_of(matched, observed, reports)
}

/// Whether the matches of the chunk are the matches of its reports against
/// what the log held when the chunk was matched.
pub open spec fn is_matched_chunk(chunk: MatchedReportsChunk) -> bool {
    are_matches_of_some_log(matched_views(chunk.matched@), report_views(chunk.reports@))
}

/// Whether the report verifies and `observed` holds one of its numbers, the
/// first of them at the contact time.
pub open spec fn is_match_of(matched: (Seq<u8>, UnixTime), observed: Seq<ObservedTcn>) -> bool {
    contact_time_of(lookup_of(observed), matched.0) == Some(matched.1)
}

/// Whether the report verifies and matched at the contact time against what
/// the log held when it was read, whatever that was.
pub open spec fn is_match_of_some_log(matched: (Seq<u8>, UnixTime)) -> bool {
    exists|observed: Seq<ObservedTcn>| #[trigger] is_match_of(matched, observed)
}

/// Whether the alert tells of the match: the match is one, and the alert
/// carries its contact time.
pub open spec fn is_alert_of(alert: Alert, matched: (Seq<u8>, UnixTime)) -> bool {
    is_match_of_some_log(matched) && alert.contact_time == matched.1.value
}

/// Whether the alert tells of a match.
pub open spec fn tells_of_a_match(alert: Alert) -> bool {
    exists|matched: (Seq<u8>, UnixTime)| #[trigger] is_alert_of(alert, matched)
}

/// The contact time of each match.
pub open spec fn times_of(matched: Seq<(Seq<u8>, UnixTime)>) -> Seq<u64> {
    matched.map_values(|matched: (Seq<u8>, UnixTime)| matched.1.value)
}

/// The report of a match verifies, so no match is lost when the reports
/// are verified once more: the times of the matches that verify are the
/// times of all of them.
pub proof fn lemma_times_of_matches(matched: Seq<(Seq<u8>, UnixTime)>)
    requires
        forall|i: int| 0 <= i < matched.len() ==> is_match_of_some_log(#[trigger] matched[i]),
    ensures
        verified_times(matched) == times_of(matched),
    decreases matched.len(),
{
    if matched.len() > 0 {
        let before = matched.drop_last();
        assert forall|i: int| 0 <= i < before.len() implies is_match_of_some_log(
            #[trigger] before[i],
        ) by {
            assert(before[i] == matched[i]);
        }
        lemma_times_of_matches(before);
        assert(is_match_of_some_log(matched[matched.len() - 1]));
        let observed = choose|observed: Seq<ObservedTcn>| #[trigger]
            is_match_of(matched.last(), observed);
        assert(verified_report(matched.last().0) is Some);
    }
    assert(verified_times(matched) =~= times_of(matched));
}

/// What counts as a checkpoint of what the preferences hold: a window of
/// positive length that has a successor. Anything else counts as none, and
/// the pass starts as if no window had been completed.
pub fn valid_checkpoint(stored: Option<ReportsInterval>) -> (last: Option<ReportsInterval>)
    ensures
        last == (if stored matches Some(interval) && interval.wf() && interval.number
            < u64::MAX {
            stored
        } else {
            None
        }),
{
    match stored {
        Some(interval) => if interval.length > 0 && interval.number < u64::MAX {
            Some(interval)
        } else {
            None
        },
        None => None,
    }
}

/// What the answer of the distribution service for a window makes of
/// reports: the signed reports that its texts hold, or its failure.
pub fn signed_reports_chunk(
    interval: ReportsInterval,
    reports_strings_result: Result<Vec<String>, NetworkingError>,
) -> (res: Result<SignedReportsChunk, NetworkingError>)
    ensures
        match reports_strings_result {
            Ok(report_strings) => res matches Ok(chunk) && chunk.interval == interval
                && report_views(chunk.reports@) == reports_in(string_views(report_strings@)),
            Err(error) => res matches Err(failed) && failed == error,
        },
{
    match reports_strings_result {
        Ok(report_strings) => Ok(
            SignedReportsChunk { reports: signed_reports_from(&report_strings), interval },
        ),
        Err(error) => Err(error),
    }
}

/// A copy of the reports, one for one.
pub fn copy_of_reports(reports: &Vec<SignedReport>) -> (copy: Vec<SignedReport>)
    ensures
        report_views(copy@) == report_views(reports@),
{
    let mut copy: Vec<SignedReport> = Vec::new();
    let mut index: usize = 0;
    while index < reports.len()
        invariant
            index <= reports@.len(),
            report_views(copy@) == report_views(reports@.take(index as int)),
        decreases reports@.len() - index,
    {
        let ghost before = copy@;
        let report: SignedReport = reports[index].clone();
        copy.push(report);
        index = index + 1;
        assert(report_views(copy@) =~= report_views(before).push(report@));
        assert(reports@.take(index as int) =~= reports@.take(index - 1).push(
            reports@[index - 1],
        ));
        assert(report_views(reports@.take(index as int)) =~= report_views(
            reports@.take(index - 1),
        ).push(reports@[index - 1]@));
    }
    assert(reports@.take(index as int) == reports@);
    copy
}

/// The chunk of a window with what matching its reports gave: the reports
/// with their matches, or the failure.
pub fn matched_reports_chunk(
    chunk: SignedReportsChunk,
    matches_result: Result<Vec<MatchedReport>, ServicesError>,
) -> (res: Result<MatchedReportsChunk, ServicesError>)
    ensures
        match matches_result {
            Ok(matches) => res matches Ok(matched) && matched.reports == chunk.reports
                && matched.matched == matches && matched.interval == chunk.interval,
            Err(error) => res matches Err(failed) && failed == error,
        },
{
    match matches_result {
        Ok(matches) => Ok(
            MatchedReportsChunk {
                reports: chunk.reports,
                matched: matches,
                interval: chunk.interval,
            },
        ),
        Err(error) => Err(error),
    }
}

/// A match among the matches of a batch is a match: its report verifies,
/// and the lookup holds one of its numbers, the first of them at the
/// contact time.
pub proof fn lemma_matches_are_matches(
    matched: Seq<(Seq<u8>, UnixTime)>,
    observed: Seq<ObservedTcn>,
    reports: Seq<Seq<u8>>,
    i: int,
)
    requires
        are_matches_of(matched, observed, reports),
        0 <= i < matched.len(),
    ensures
        is_match_of(matched[i], observed),
{
    matched.to_multiset_ensures();
    assert(matched.contains(matched[i]));
    lemma_matches_count(lookup_of(observed), reports, matched[i]);
}

/// What the chunks of a pass hold as matches are matches, each against what
/// the log held when its chunk was matched.
pub proof fn lemma_matched_in_chunks(chunks: Seq<MatchedReportsChunk>)
    requires
        forall|i: int| 0 <= i < chunks.len() ==> is_matched_chunk(#[trigger] chunks[i]),
    ensures
        forall|i: int|
            0 <= i < matched_in(chunks).len() ==> is_match_of_some_log(
                (#[trigger] matched_in(chunks)[i])@,
            ),
    decreases chunks.len(),
{
    if chunks.len() > 0 {
        let before = chunks.drop_last();
        let last = chunks.last();
        assert forall|i: int| 0 <= i < before.len() implies is_matched_chunk(
            #[trigger] before[i],
        ) by {
            assert(before[i] == chunks[i]);
        }
        lemma_matched_in_chunks(before);
        assert(is_matched_chunk(chunks[chunks.len() - 1]));
        let views = matched_views(last.matched@);
        let observed = choose|observed: Seq<ObservedTcn>| #[trigger]
            are_matches_of(views, observed, report_views(last.reports@));
        assert forall|i: int| 0 <= i < matched_in(chunks).len() implies is_match_of_some_log(
            (#[trigger] matched_in(chunks)[i])@,
        ) by {
            if i >= matched_in(before).len() {
                let k = i - matched_in(before).len();
                assert(matched_in(chunks)[i] == last.matched@[k]);
                assert(views[k] == last.matched@[k]@);
                lemma_matches_are_matches(views, observed, report_views(last.reports@), k);
                assert(is_match_of(views[k], observed));
            } else {
                assert(matched_in(chunks)[i] == matched_in(before)[i]);
            }
        }
    }
}

/// The window at which a pass starts: the successor of the last completed
/// window, or, where no window was completed yet, the window of the default
/// length that `time` falls into.
pub fn determine_start_interval(last_completed: Option<ReportsInterval>, time: &UnixTime) -> (start:
    ReportsInterval)
    requires
        last_completed matches Some(interval) ==> interval.wf() && interval.number < u64::MAX,
    ensures
        start.wf(),
        match last_completed {
            Some(interval) => start == interval.spec_next(),
            None => start.length == DEFAULT_INTERVAL_LENGTH
                && start.number == time.value / DEFAULT_INTERVAL_LENGTH
                && start.contains(*time),
        },
{
    match last_completed {
        Some(interval) => interval.next(),
        None => ReportsInterval::create_for_with_default_length(time),
    }
}

/// The last of the windows, in their order, that ends before `time`.
pub fn interval_ending_before(intervals: &Vec<ReportsInterval>, time: &UnixTime) -> (found: Option<
    ReportsInterval,
>)
    ensures
        match found {
            Some(interval) => exists|i: int|
                {
                    &&& 0 <= i < intervals@.len()
                    &&& #[trigger] intervals@[i] == interval
                    &&& interval.spec_ends_before(time)
                    &&& forall|j: int|
                        i < j < intervals@.len() ==> !(#[trigger] intervals@[j]).spec_ends_before(
                            time,
                        )
                },
            None => forall|i: int|
                0 <= i < intervals@.len() ==> !(#[trigger] intervals@[i]).spec_ends_before(time),
        },
{
    let mut index: usize = intervals.len();
    while index > 0
        invariant
            index <= intervals@.len(),
            forall|j: int|
                index <= j < intervals@.len() ==> !(#[trigger] intervals@[j]).spec_ends_before(
                    time,
                ),
        decreases index,
    {
        index = index - 1;
        let interval: ReportsInterval = intervals[index];
        if interval.ends_before(time) {
            return Some(interval);
        }
    }
    None
}

/// What a pass completes: of the windows that a pass fetches, every one but
/// the last is over when the pass is made, and the last is still running.
/// So the checkpoint of a pass is the window before its last, and the window
/// that was running is fetched again by the next pass.
pub proof fn lemma_pass_completes_all_but_last(
    sequence: Seq<ReportsInterval>,
    from: ReportsInterval,
    until: UnixTime,
)
    requires
        is_interval_sequence(sequence, from, until),
    ensures
        forall|i: int|
            0 <= i < sequence.len() - 1 ==> (#[trigger] sequence[i]).spec_ends_before(&until),
        sequence.len() > 0 ==> !sequence.last().spec_ends_before(&until),
{
    assert forall|i: int| 0 <= i < sequence.len() - 1 implies (
    #[trigger] sequence[i]).spec_ends_before(&until) by {
        assert(sequence[i + 1].spec_starts_before(&until));
        assert((from.number + i) * from.length + from.length == (from.number + i + 1)
            * from.length) by (nonlinear_arith);
    }
    if sequence.len() > 0 {
        let last = sequence.len() - 1;
        assert(sequence[last] == sequence.last());
        assert((from.number + last) * from.length + from.length == (from.number + last + 1)
            * from.length) by (nonlinear_arith);
    }
}

/// The signed reports that the texts of a window hold, in their order. A
/// text that is not base64, or does not hold a signed report, is left out.
pub open spec fn reports_in(texts: Seq<Seq<char>>) -> Seq<Seq<u8>>
    decreases texts.len(),
{
    if texts.len() == 0 {
        Seq::empty()
    } else {
        let rest = reports_in(texts.drop_last());
        match base64_decoded(texts.last()) {
            Some(bytes) => if reads_as_signed_report(bytes) {
                rest.push(bytes)
            } else {
                rest
            },
            None => rest,
        }
    }
}

/// The texts of the strings.
pub open spec fn string_views(strings: Seq<String>) -> Seq<Seq<char>> {
    strings.map_values(|string: String| string@)
}

/// Decodes each of the strings that the distribution service hands out for
/// a window, and drops those that hold no signed report.
pub fn signed_reports_from(report_strings: &Vec<String>) -> (reports: Vec<SignedReport>)
    ensures
        report_views(reports@) == reports_in(string_views(report_strings@)),
{
    let mut reports: Vec<SignedReport> = Vec::new();
    let mut index: usize = 0;
    while index < report_strings.len()
        invariant
            index <= report_strings@.len(),
            report_views(reports@) == reports_in(
                string_views(report_strings@).take(index as int),
            ),
        decreases report_strings@.len() - index,
    {
        proof {
            let texts = string_views(report_strings@);
            assert(texts.take(index + 1).drop_last() == texts.take(index as int));
            assert(texts.take(index + 1).last() == report_strings@[index as int]@);
        }
        if let Some(report) = SignedReport::with_str(report_strings[index].as_str()) {
            reports.push(report);
        }
        index = index + 1;
    }
    assert(string_views(report_strings@).take(index as int) == string_views(report_strings@));
    reports
}

/// The contact time of each alert.
pub open spec fn alert_times(alerts: Seq<Alert>) -> Seq<u64> {
    alerts.map_values(|alert: Alert| alert.contact_time)
}

/// The contact times of the matches whose report verifies, in their order.
pub open spec fn verified_times(matched: Seq<(Seq<u8>, UnixTime)>) -> Seq<u64>
    decreases matched.len(),
{
    if matched.len() == 0 {
        Seq::empty()
    } else {
        let rest = verified_times(matched.drop_last());
        if verified_report(matched.last().0) is Some {
            rest.push(matched.last().1.value)
        } else {
            rest
        }
    }
}

/// The memo that a report carries, if its signature verifies.
pub fn memo_of(report: &SignedReport) -> (memo: Option<Memo>)
    ensures
        match memo {
            Some(memo) => verified_report(report@) matches Some((_, data)) && memo.bytes@ == data,
            None => verified_report(report@) is None,
        },
{
    match report.verify() {
        Some(verified) => Some(Memo { bytes: verified.memo_data }),
        None => None,
    }
}

/// The window of each chunk.
pub open spec fn intervals_of(chunks: Seq<MatchedReportsChunk>) -> Seq<ReportsInterval> {
    chunks.map_values(|chunk: MatchedReportsChunk| chunk.interval)
}

/// The window of each chunk.
pub fn chunk_intervals(chunks: &Vec<MatchedReportsChunk>) -> (intervals: Vec<ReportsInterval>)
    ensures
        intervals@ == intervals_of(chunks@),
{
    let mut intervals: Vec<ReportsInterval> = Vec::new();
    let mut index: usize = 0;
    while index < chunks.len()
        invariant
            index <= chunks@.len(),
            intervals@ == intervals_of(chunks@.take(index as int)),
        decreases chunks@.len() - index,
    {
        intervals.push(chunks[index].interval);
        index = index + 1;
        assert(intervals@ =~= intervals_of(chunks@.take(index as int)));
    }
    assert(chunks@.take(index as int) == chunks@);
    intervals
}

/// The matches of all chunks, window after window.
pub open spec fn matched_in(chunks: Seq<MatchedReportsChunk>) -> Seq<MatchedReport>
    decreases chunks.len(),
{
    if chunks.len() == 0 {
        Seq::empty()
    } else {
        matched_in(chunks.drop_last()) + chunks.last().matched@
    }
}

/// Gathers the matches of all chunks, window after window.
pub fn all_matched(chunks: Vec<MatchedReportsChunk>) -> (matched: Vec<MatchedReport>)
    ensures
        matched@ == matched_in(chunks@),
{
    let mut matched: Vec<MatchedReport> = Vec::new();
    let ghost all = chunks@;
    for chunk in iter: chunks.into_iter()
        invariant
            iter.seq() == all,
            matched@ == matched_in(all.take(iter.index())),
    {
        proof {
            assert(all.take(iter.index() + 1).drop_last() == all.take(iter.index()));
        }
        let mut found: Vec<MatchedReport> = chunk.matched;
        matched.append(&mut found);
    }
    assert(all.take(all.len() as int) == all);
    matched
}

} // verus!
