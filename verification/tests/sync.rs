use coepi_core::errors::{NetworkingError, PersistenceError, ServicesError};
use coepi_core::observed_tcn::{ObservedTcn, TcnDao};
use coepi_core::public_report::{CoughSeverity, FeverSeverity, Memo, MemoMapper, PublicReport};
use coepi_core::reports_interval::{ReportsInterval, UnixTime};
use coepi_core::reports_updater::{
    all_matched, chunk_intervals, copy_of_reports, matched_reports_chunk, signed_reports_chunk,
    valid_checkpoint, Alert, MatchedReportsChunk, Preferences, PreferencesKey, ReportsUpdater,
    SignedReportsChunk, TcnApi,
};
use coepi_core::signed_report::SignedReport;
use coepi_core::tcn_matcher::{MatchedReport, TcnMatcherRayon};
use std::cell::RefCell;
use std::io::Cursor;
use std::sync::Arc;
use tcn::{MemoType, ReportAuthorizationKey};

const KNOWN_REPORT: &str = "D7Z8XrufMgfsFH3K5COnv17IFG2ahDb4VM/UMK/5y0+/OtUVVTh7sN0DQ5+R+ocecTilR+SIIpPHzujeJdJzugEAECcAFAEAmmq5XgAAAACaarleAAAAACEBo8p1WdGeXb5O5/3kN6x7GSylgiYGIGsABl3NrxhJu9XHwsN3f6yvRwUxs2fhP4oU5E3+JWabBP6v09pGV1xRCw==";

const KNOWN_TCN: [u8; 16] =
    [24, 229, 125, 245, 98, 86, 219, 221, 172, 25, 232, 150, 206, 66, 164, 173];

const LENGTH: u64 = 21600;

struct MemoryPreferences {
    checkpoint: RefCell<Option<ReportsInterval>>,
    writes: RefCell<Vec<ReportsInterval>>,
}

impl MemoryPreferences {
    fn with(checkpoint: Option<ReportsInterval>) -> Arc<MemoryPreferences> {
        Arc::new(MemoryPreferences {
            checkpoint: RefCell::new(checkpoint),
            writes: RefCell::new(Vec::new()),
        })
    }
}

impl Preferences for MemoryPreferences {
    fn last_completed_reports_interval(&self, _key: PreferencesKey) -> Option<ReportsInterval> {
        *self.checkpoint.borrow()
    }

    fn set_last_completed_reports_interval(&self, _key: PreferencesKey, value: ReportsInterval) {
        *self.checkpoint.borrow_mut() = Some(value);
        self.writes.borrow_mut().push(value);
    }
}

struct ScriptedApi {
    calls: RefCell<Vec<(u64, u64)>>,
    answer: Box<dyn Fn(u64) -> Result<Vec<String>, NetworkingError>>,
}

impl ScriptedApi {
    fn with(answer: Box<dyn Fn(u64) -> Result<Vec<String>, NetworkingError>>) -> ScriptedApi {
        ScriptedApi { calls: RefCell::new(Vec::new()), answer }
    }
}

impl TcnApi for ScriptedApi {
    fn get_reports(
        &self,
        interval_number: u64,
        interval_length: u64,
    ) -> Result<Vec<String>, NetworkingError> {
        self.calls.borrow_mut().push((interval_number, interval_length));
        (self.answer)(interval_number)
    }
}

struct FixedDao {
    observations: Result<Vec<ObservedTcn>, ServicesError>,
}

impl TcnDao for FixedDao {
    fn all(&self) -> Result<Vec<ObservedTcn>, ServicesError> {
        self.observations.clone()
    }

    fn save(&self, _observed_tcn: ObservedTcn) -> Result<(), ServicesError> {
        Ok(())
    }
}

struct LengthMapper {}

impl MemoMapper for LengthMapper {
    fn to_report(&self, memo: Memo) -> PublicReport {
        PublicReport {
            earliest_symptom_time: Some(UnixTime { value: memo.bytes.len() as u64 }),
            fever_severity: FeverSeverity::Serious,
            breathlessness: memo.bytes[0] == 1,
            cough_severity: CoughSeverity::Existing,
        }
    }
}

fn known_observation() -> FixedDao {
    FixedDao {
        observations: Ok(vec![
            ObservedTcn { tcn: [0; 16], time: UnixTime { value: 1 } },
            ObservedTcn { tcn: KNOWN_TCN, time: UnixTime { value: 1590528300 } },
        ]),
    }
}

fn other_report() -> String {
    let rak = ReportAuthorizationKey::new(rand::thread_rng());
    let signed = rak.create_report(MemoType::CoEpiV1, vec![9, 9], 1, 50).unwrap();
    let mut buf = Vec::new();
    signed.write(Cursor::new(&mut buf)).unwrap();
    base64::encode(&buf)
}

/// The index of the window of the system clock, or `None` in the seconds in
/// which the clock passes from one window to the next.
fn window_of(before: UnixTime, after: UnixTime) -> Option<u64> {
    if before.value / LENGTH == after.value / LENGTH && before.value % LENGTH != 0 {
        Some(before.value / LENGTH)
    } else {
        None
    }
}

fn run(
    preferences: &Arc<MemoryPreferences>,
    api: &ScriptedApi,
    dao: &FixedDao,
) -> (Result<Vec<Alert>, ServicesError>, Option<u64>) {
    let mapper = LengthMapper {};
    let updater = ReportsUpdater {
        preferences: preferences.clone(),
        tcn_dao: dao,
        tcn_matcher: TcnMatcherRayon {},
        api,
        memo_mapper: &mapper,
    };
    let before = UnixTime::now();
    let res = updater.fetch_new_reports();
    let after = UnixTime::now();
    (res, window_of(before, after))
}

#[test]
fn first_pass_starts_at_the_window_of_now() {
    let preferences = MemoryPreferences::with(None);
    let api = ScriptedApi::with(Box::new(|_| {
        Ok(vec![other_report(), "no report".to_owned(), KNOWN_REPORT.to_owned()])
    }));
    let (res, window) = run(&preferences, &api, &known_observation());
    let alerts = res.unwrap();
    if let Some(window) = window {
        assert_eq!(*api.calls.borrow(), vec![(window, LENGTH)]);
        assert_eq!(alerts.len(), 1);
        assert_eq!(alerts[0].contact_time, 1590528300);
        assert_eq!(
            alerts[0].report,
            PublicReport {
                earliest_symptom_time: Some(UnixTime { value: 20 }),
                fever_severity: FeverSeverity::Serious,
                breathlessness: true,
                cough_severity: CoughSeverity::Existing,
            }
        );
        assert!(!alerts[0].id.is_empty());
        assert!(preferences.writes.borrow().is_empty());
        assert_eq!(*preferences.checkpoint.borrow(), None);
    }
}

#[test]
fn pass_goes_on_after_the_checkpoint_and_moves_it() {
    let now = UnixTime::now().value / LENGTH;
    let checkpoint = ReportsInterval { number: now - 3, length: LENGTH };
    let preferences = MemoryPreferences::with(Some(checkpoint));
    let api = ScriptedApi::with(Box::new(move |number| {
        if number == now - 1 {
            Ok(vec![KNOWN_REPORT.to_owned()])
        } else {
            Ok(vec![other_report()])
        }
    }));
    let (res, window) = run(&preferences, &api, &known_observation());
    let alerts = res.unwrap();
    if window == Some(now) {
        assert_eq!(
            *api.calls.borrow(),
            vec![(now - 2, LENGTH), (now - 1, LENGTH), (now, LENGTH)]
        );
        assert_eq!(alerts.len(), 1);
        assert_eq!(alerts[0].contact_time, 1590528300);
        assert_eq!(
            *preferences.writes.borrow(),
            vec![ReportsInterval { number: now - 1, length: LENGTH }]
        );
    }
}

#[test]
fn window_that_fails_ends_the_pass() {
    let now = UnixTime::now().value / LENGTH;
    let checkpoint = ReportsInterval { number: now - 3, length: LENGTH };
    let preferences = MemoryPreferences::with(Some(checkpoint));
    let api = ScriptedApi::with(Box::new(move |number| {
        if number == now - 1 {
            Err(NetworkingError { http_status: 503, message: "unavailable".to_owned() })
        } else {
            Ok(vec![KNOWN_REPORT.to_owned()])
        }
    }));
    let (res, window) = run(&preferences, &api, &known_observation());
    if window == Some(now) {
        assert_eq!(
            res,
            Err(ServicesError::Networking(NetworkingError {
                http_status: 503,
                message: "unavailable".to_owned()
            }))
        );
        assert_eq!(*api.calls.borrow(), vec![(now - 2, LENGTH), (now - 1, LENGTH)]);
        assert!(preferences.writes.borrow().is_empty());
        assert_eq!(*preferences.checkpoint.borrow(), Some(checkpoint));
    }
}

#[test]
fn failure_of_the_log_ends_the_pass() {
    let now = UnixTime::now().value / LENGTH;
    let checkpoint = ReportsInterval { number: now - 3, length: LENGTH };
    let preferences = MemoryPreferences::with(Some(checkpoint));
    let api = ScriptedApi::with(Box::new(|_| Ok(vec![KNOWN_REPORT.to_owned()])));
    let dao = FixedDao {
        observations: Err(ServicesError::Persistence(PersistenceError::Uninitialized)),
    };
    let (res, window) = run(&preferences, &api, &dao);
    if window == Some(now) {
        assert_eq!(res, Err(ServicesError::Persistence(PersistenceError::Uninitialized)));
        assert_eq!(*api.calls.borrow(), vec![(now - 2, LENGTH)]);
        assert!(preferences.writes.borrow().is_empty());
    }
}

#[test]
fn nothing_is_fetched_where_the_checkpoint_is_the_window_of_now() {
    let now = UnixTime::now().value / LENGTH;
    let checkpoint = ReportsInterval { number: now, length: LENGTH };
    let preferences = MemoryPreferences::with(Some(checkpoint));
    let api = ScriptedApi::with(Box::new(|_| Ok(vec![KNOWN_REPORT.to_owned()])));
    let (res, window) = run(&preferences, &api, &known_observation());
    if window == Some(now) {
        assert_eq!(res, Ok(Vec::new()));
        assert!(api.calls.borrow().is_empty());
        assert!(preferences.writes.borrow().is_empty());
    }
}

#[test]
fn window_in_progress_is_fetched_again() {
    let now = UnixTime::now().value / LENGTH;
    let checkpoint = ReportsInterval { number: now - 1, length: LENGTH };
    let preferences = MemoryPreferences::with(Some(checkpoint));
    let api = ScriptedApi::with(Box::new(|_| Ok(Vec::new())));
    let (first, window) = run(&preferences, &api, &known_observation());
    let (second, again) = run(&preferences, &api, &known_observation());
    if window == Some(now) && again == Some(now) {
        assert_eq!(first, Ok(Vec::new()));
        assert_eq!(second, Ok(Vec::new()));
        assert_eq!(*api.calls.borrow(), vec![(now, LENGTH), (now, LENGTH)]);
        assert!(preferences.writes.borrow().is_empty());
    }
}

#[test]
fn checkpoint_that_is_no_window_counts_as_none() {
    let preferences = MemoryPreferences::with(Some(ReportsInterval { number: 5, length: 0 }));
    let api = ScriptedApi::with(Box::new(|_| Ok(Vec::new())));
    let (res, window) = run(&preferences, &api, &known_observation());
    if let Some(window) = window {
        assert_eq!(res, Ok(Vec::new()));
        assert_eq!(*api.calls.borrow(), vec![(window, LENGTH)]);
    }
}

#[test]
fn alerts_follow_the_windows_and_have_identifiers_of_their_own() {
    let now = UnixTime::now().value / LENGTH;
    let checkpoint = ReportsInterval { number: now - 2, length: LENGTH };
    let preferences = MemoryPreferences::with(Some(checkpoint));
    let api = ScriptedApi::with(Box::new(|_| {
        Ok(vec![KNOWN_REPORT.to_owned(), KNOWN_REPORT.to_owned()])
    }));
    let (res, window) = run(&preferences, &api, &known_observation());
    let alerts = res.unwrap();
    if window == Some(now) {
        assert_eq!(alerts.len(), 4);
        for i in 0..alerts.len() {
            assert_eq!(alerts[i].contact_time, 1590528300);
            assert_eq!(alerts[i].id.len(), 36);
            for j in 0..i {
                assert_ne!(alerts[i].id, alerts[j].id);
            }
        }
    }
}

#[test]
fn alerts_are_given_for_the_matches_that_verify() {
    let preferences = MemoryPreferences::with(None);
    let api = ScriptedApi::with(Box::new(|_| Ok(Vec::new())));
    let dao = known_observation();
    let mapper = LengthMapper {};
    let updater = ReportsUpdater {
        preferences,
        tcn_dao: &dao,
        tcn_matcher: TcnMatcherRayon {},
        api: &api,
        memo_mapper: &mapper,
    };
    let genuine = SignedReport::with_str(KNOWN_REPORT).unwrap();
    let mut bytes = genuine.as_bytes().clone();
    bytes[80] ^= 1;
    let tampered = SignedReport::from_bytes(bytes).unwrap();
    let matched = |report: &SignedReport, time: u64| MatchedReport {
        report: report.clone(),
        contact_time: UnixTime { value: time },
    };
    let alerts = updater.alerts_of(vec![
        matched(&genuine, 10),
        matched(&tampered, 20),
        matched(&genuine, 30),
        matched(&tampered, 40),
    ]);
    assert_eq!(alerts.len(), 2);
    assert_eq!(alerts[0].contact_time, 10);
    assert_eq!(alerts[1].contact_time, 30);
    assert_eq!(alerts[0].report, alerts[1].report);
    assert_eq!(alerts[0].report.earliest_symptom_time, Some(UnixTime { value: 20 }));
    assert_ne!(alerts[0].id, alerts[1].id);
    assert!(updater.alerts_of(Vec::new()).is_empty());
    assert!(updater.alerts_of(vec![matched(&tampered, 1)]).is_empty());
    assert!(api.calls.borrow().is_empty());
}

#[test]
fn chunks_give_their_windows_and_their_matches() {
    let report = SignedReport::with_str(KNOWN_REPORT).unwrap();
    let matched = |time: u64| MatchedReport {
        report: report.clone(),
        contact_time: UnixTime { value: time },
    };
    let chunks = vec![
        MatchedReportsChunk {
            reports: vec![report.clone()],
            matched: vec![matched(1), matched(2)],
            interval: ReportsInterval { number: 7, length: 10 },
        },
        MatchedReportsChunk {
            reports: Vec::new(),
            matched: Vec::new(),
            interval: ReportsInterval { number: 8, length: 10 },
        },
        MatchedReportsChunk {
            reports: vec![report.clone()],
            matched: vec![matched(3)],
            interval: ReportsInterval { number: 9, length: 10 },
        },
    ];
    assert_eq!(
        chunk_intervals(&chunks),
        vec![
            ReportsInterval { number: 7, length: 10 },
            ReportsInterval { number: 8, length: 10 },
            ReportsInterval { number: 9, length: 10 },
        ]
    );
    assert_eq!(all_matched(chunks), vec![matched(1), matched(2), matched(3)]);
    assert!(chunk_intervals(&Vec::new()).is_empty());
    assert!(all_matched(Vec::new()).is_empty());
}

#[test]
fn checkpoint_counts_where_it_is_a_window_with_a_successor() {
    let window = ReportsInterval { number: 73635, length: LENGTH };
    assert_eq!(valid_checkpoint(Some(window)), Some(window));
    let last = ReportsInterval { number: u64::MAX - 1, length: 1 };
    assert_eq!(valid_checkpoint(Some(last)), Some(last));
    assert_eq!(valid_checkpoint(None), None);
    assert_eq!(valid_checkpoint(Some(ReportsInterval { number: 5, length: 0 })), None);
    assert_eq!(valid_checkpoint(Some(ReportsInterval { number: u64::MAX, length: LENGTH })), None);
}

#[test]
fn answer_of_the_service_becomes_a_chunk() {
    let interval = ReportsInterval { number: 7, length: 10 };
    let strings = vec!["no report".to_owned(), KNOWN_REPORT.to_owned(), String::new()];
    let chunk = signed_reports_chunk(interval, Ok(strings)).unwrap();
    assert_eq!(chunk.interval, interval);
    assert_eq!(chunk.reports, vec![SignedReport::with_str(KNOWN_REPORT).unwrap()]);
    let empty = signed_reports_chunk(interval, Ok(Vec::new())).unwrap();
    assert_eq!(empty.interval, interval);
    assert!(empty.reports.is_empty());
}

#[test]
fn failure_of_the_service_is_handed_on() {
    let interval = ReportsInterval { number: 7, length: 10 };
    let error = NetworkingError { http_status: 404, message: "not found".to_owned() };
    match signed_reports_chunk(interval, Err(error.clone())) {
        Err(failed) => assert_eq!(failed, error),
        Ok(_) => panic!("a window that could not be had gave a chunk"),
    }
}

#[test]
fn reports_are_copied_one_for_one() {
    let genuine = SignedReport::with_str(KNOWN_REPORT).unwrap();
    let other = SignedReport::with_str(&other_report()).unwrap();
    let reports = vec![genuine.clone(), other.clone(), genuine.clone()];
    assert_eq!(copy_of_reports(&reports), reports);
    assert!(copy_of_reports(&Vec::new()).is_empty());
}

#[test]
fn chunk_takes_its_matches_or_the_failure() {
    let genuine = SignedReport::with_str(KNOWN_REPORT).unwrap();
    let interval = ReportsInterval { number: 7, length: 10 };
    let matched =
        MatchedReport { report: genuine.clone(), contact_time: UnixTime { value: 1590528300 } };
    let chunk = SignedReportsChunk { reports: vec![genuine.clone()], interval };
    let with_matches = matched_reports_chunk(chunk.clone(), Ok(vec![matched.clone()])).unwrap();
    assert_eq!(with_matches.reports, vec![genuine]);
    assert_eq!(with_matches.matched, vec![matched]);
    assert_eq!(with_matches.interval, interval);
    let error = ServicesError::Persistence(PersistenceError::Uninitialized);
    match matched_reports_chunk(chunk, Err(error.clone())) {
        Err(failed) => assert_eq!(failed, error),
        Ok(_) => panic!("a window that could not be matched gave a chunk"),
    }
}
