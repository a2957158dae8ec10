//! What holds of matching, whatever the observations and the reports are.

use crate::observed_tcn::ObservedTcn;
use crate::reports_interval::UnixTime;
use crate::signed_report::verified_report;
use crate::tcn_matcher::{contact_time_of, first_match, lookup_of, matches_of, tcn_key};
use vstd::bytes::{
    lemma_auto_spec_u128_to_from_le_bytes, spec_u128_from_le_bytes, spec_u128_to_le_bytes,
};
use vstd::prelude::*;
use vstd::seq_lib::to_multiset_build;

verus! {

/// Whether the contact number is among the observations.
pub open spec fn is_observed(observed: Seq<ObservedTcn>, tcn: [u8; 16]) -> bool {
    exists|j: int| 0 <= j < observed.len() && (#[trigger] observed[j]).tcn == tcn
}

/// Whether the observation at `j` is the last of its contact number.
pub open spec fn is_last_observation(observed: Seq<ObservedTcn>, j: int) -> bool {
    &&& 0 <= j < observed.len()
    &&& forall|k: int| j < k < observed.len() ==> (#[trigger] observed[k]).tcn != observed[j].tcn
}

/// Whether the number at `i` is the first of `numbers` that was observed.
pub open spec fn is_first_observed(
    observed: Seq<ObservedTcn>,
    numbers: Seq<[u8; 16]>,
    i: int,
) -> bool {
    &&& 0 <= i < numbers.len()
    &&& is_observed(observed, numbers[i])
    &&& forall|k: int| 0 <= k < i ==> !is_observed(observed, #[trigger] numbers[k])
}

/// Two contact numbers have the same key in the lookup only if they are the
/// same number.
pub proof fn lemma_tcn_key_injective(a: [u8; 16], b: [u8; 16])
    ensures
        tcn_key(a) == tcn_key(b) <==> a == b,
{
    lemma_auto_spec_u128_to_from_le_bytes();
    if tcn_key(a) == tcn_key(b) {
        assert(spec_u128_to_le_bytes(spec_u128_from_le_bytes(a@)) == a@);
        assert(spec_u128_to_le_bytes(spec_u128_from_le_bytes(b@)) == b@);
        assert(a =~= b);
    }
}

/// The lookup holds the contact numbers that were observed, and no others.
pub proof fn lemma_lookup_holds_observed(observed: Seq<ObservedTcn>, tcn: [u8; 16])
    ensures
        lookup_of(observed).contains_key(tcn_key(tcn)) <==> is_observed(observed, tcn),
    decreases observed.len(),
{
    if observed.len() > 0 {
        let rest = observed.drop_last();
        lemma_lookup_holds_observed(rest, tcn);
        lemma_tcn_key_injective(observed.last().tcn, tcn);
        if is_observed(rest, tcn) {
            let j = choose|j: int| 0 <= j < rest.len() && (#[trigger] rest[j]).tcn == tcn;
            assert(observed[j].tcn == tcn);
        }
        if is_observed(observed, tcn) {
            let j = choose|j: int| 0 <= j < observed.len() && (#[trigger] observed[j]).tcn == tcn;
            if j < rest.len() {
                assert(rest[j].tcn == tcn);
            }
        }
    }
}

/// Duplicate numbers: where a contact number was observed more than once,
/// the lookup holds its last observation.
pub proof fn lemma_last_observation_wins(observed: Seq<ObservedTcn>, j: int)
    requires
        is_last_observation(observed, j),
    ensures
        lookup_of(observed).contains_key(tcn_key(observed[j].tcn)),
        lookup_of(observed)[tcn_key(observed[j].tcn)] == observed[j],
    decreases observed.len(),
{
    if j < observed.len() - 1 {
        let rest = observed.drop_last();
        assert(observed[observed.len() - 1].tcn != observed[j].tcn);
        lemma_tcn_key_injective(observed.last().tcn, observed[j].tcn);
        assert forall|k: int| j < k < rest.len() implies (#[trigger] rest[k]).tcn
            != rest[j].tcn by {
            assert(observed[k].tcn != observed[j].tcn);
        }
        lemma_last_observation_wins(rest, j);
    }
}

/// First match wins: the contact time of a sequence of numbers is that of
/// the first of them that the lookup holds.
pub proof fn lemma_first_match_wins(lookup: Map<u128, ObservedTcn>, numbers: Seq<[u8; 16]>, i: int)
    requires
        0 <= i < numbers.len(),
        lookup.contains_key(tcn_key(numbers[i])),
        forall|k: int| 0 <= k < i ==> !lookup.contains_key(tcn_key(#[trigger] numbers[k])),
    ensures
        first_match(lookup, numbers) == Some(lookup[tcn_key(numbers[i])].time),
    decreases i,
{
    if i > 0 {
        let rest = numbers.drop_first();
        assert(!lookup.contains_key(tcn_key(numbers[0])));
        assert forall|k: int| 0 <= k < i - 1 implies !lookup.contains_key(
            tcn_key(#[trigger] rest[k]),
        ) by {
            assert(rest[k] == numbers[k + 1]);
        }
        lemma_first_match_wins(lookup, rest, i - 1);
    }
}

/// There is a match if and only if the lookup holds one of the numbers.
pub proof fn lemma_first_match_found(lookup: Map<u128, ObservedTcn>, numbers: Seq<[u8; 16]>)
    ensures
        first_match(lookup, numbers) is Some <==> exists|i: int|
            0 <= i < numbers.len() && lookup.contains_key(tcn_key(#[trigger] numbers[i])),
    decreases numbers.len(),
{
    if numbers.len() > 0 {
        let rest = numbers.drop_first();
        lemma_first_match_found(lookup, rest);
        if lookup.contains_key(tcn_key(numbers[0])) {
        } else {
            if first_match(lookup, rest) is Some {
                let i = choose|i: int|
                    0 <= i < rest.len() && lookup.contains_key(tcn_key(#[trigger] rest[i]));
                assert(numbers[i + 1] == rest[i]);
            }
            if exists|i: int|
                0 <= i < numbers.len() && lookup.contains_key(tcn_key(#[trigger] numbers[i])) {
                let i = choose|i: int|
                    0 <= i < numbers.len() && lookup.contains_key(tcn_key(#[trigger] numbers[i]));
                assert(rest[i - 1] == numbers[i]);
            }
        }
    }
}

/// What the lookup holds under a key is an observation of the number with
/// that key.
pub proof fn lemma_lookup_value_is_observed(observed: Seq<ObservedTcn>, key: u128)
    requires
        lookup_of(observed).contains_key(key),
    ensures
        exists|j: int|
            0 <= j < observed.len() && #[trigger] observed[j] == lookup_of(observed)[key]
                && tcn_key(observed[j].tcn) == key,
    decreases observed.len(),
{
    if observed.len() > 0 {
        let rest = observed.drop_last();
        if tcn_key(observed.last().tcn) == key {
            assert(observed[observed.len() - 1] == lookup_of(observed)[key]);
        } else {
            lemma_lookup_value_is_observed(rest, key);
            let j = choose|j: int|
                0 <= j < rest.len() && #[trigger] rest[j] == lookup_of(rest)[key] && tcn_key(
                    rest[j].tcn,
                ) == key;
            assert(observed[j] == lookup_of(observed)[key]);
        }
    }
}

/// A contact time that matching finds is the time under one of the numbers.
pub proof fn lemma_first_match_is_held(lookup: Map<u128, ObservedTcn>, numbers: Seq<[u8; 16]>)
    requires
        first_match(lookup, numbers) is Some,
    ensures
        exists|i: int|
            0 <= i < numbers.len() && lookup.contains_key(tcn_key(#[trigger] numbers[i]))
                && first_match(lookup, numbers) == Some(lookup[tcn_key(numbers[i])].time),
    decreases numbers.len(),
{
    if numbers.len() > 0 {
        if lookup.contains_key(tcn_key(numbers[0])) {
            assert(numbers.first() == numbers[0]);
        } else {
            let rest = numbers.drop_first();
            lemma_first_match_is_held(lookup, rest);
            let i = choose|i: int|
                0 <= i < rest.len() && lookup.contains_key(tcn_key(#[trigger] rest[i]))
                    && first_match(lookup, rest) == Some(lookup[tcn_key(rest[i])].time);
            assert(numbers[i + 1] == rest[i]);
        }
    }
}

/// Match presence: a report that verifies and discloses at least one
/// observed number yields exactly one match, which carries the report and
/// the time of an observation of one of its numbers.
pub proof fn lemma_match_presence(observed: Seq<ObservedTcn>, report: Seq<u8>)
    requires
        verified_report(report) is Some,
        exists|i: int|
            0 <= i < verified_report(report).unwrap().0.len() && is_observed(
                observed,
                #[trigger] verified_report(report).unwrap().0[i],
            ),
    ensures
        matches_of(lookup_of(observed), seq![report]).len() == 1,
        matches_of(lookup_of(observed), seq![report])[0].0 == report,
        exists|j: int|
            0 <= j < observed.len() && verified_report(report).unwrap().0.contains(
                (#[trigger] observed[j]).tcn,
            ) && observed[j].time == matches_of(lookup_of(observed), seq![report])[0].1,
{
    let numbers = verified_report(report).unwrap().0;
    let lookup = lookup_of(observed);
    let i = choose|i: int| 0 <= i < numbers.len() && is_observed(observed, #[trigger] numbers[i]);
    lemma_lookup_holds_observed(observed, numbers[i]);
    lemma_first_match_found(lookup, numbers);
    lemma_first_match_is_held(lookup, numbers);
    let first = choose|i: int|
        0 <= i < numbers.len() && lookup.contains_key(tcn_key(#[trigger] numbers[i]))
            && first_match(lookup, numbers) == Some(lookup[tcn_key(numbers[i])].time);
    lemma_lookup_value_is_observed(observed, tcn_key(numbers[first]));
    let j = choose|j: int|
        0 <= j < observed.len() && #[trigger] observed[j] == lookup[tcn_key(numbers[first])]
            && tcn_key(observed[j].tcn) == tcn_key(numbers[first]);
    lemma_tcn_key_injective(observed[j].tcn, numbers[first]);
    assert(numbers.contains(observed[j].tcn));
    lemma_single_report(lookup, report);
}

/// Match presence, to the number: the match carries the time of the last
/// observation of the first number, in the order of the report, that was
/// observed at all.
pub proof fn lemma_match_presence_exact(
    observed: Seq<ObservedTcn>,
    report: Seq<u8>,
    i: int,
    j: int,
)
    requires
        verified_report(report) is Some,
        is_first_observed(observed, verified_report(report).unwrap().0, i),
        is_last_observation(observed, j),
        observed[j].tcn == verified_report(report).unwrap().0[i],
    ensures
        matches_of(lookup_of(observed), seq![report]) == seq![(report, observed[j].time)],
{
    let numbers = verified_report(report).unwrap().0;
    let lookup = lookup_of(observed);
    lemma_last_observation_wins(observed, j);
    assert forall|k: int| 0 <= k < i implies !lookup.contains_key(
        tcn_key(#[trigger] numbers[k]),
    ) by {
        lemma_lookup_holds_observed(observed, numbers[k]);
    }
    lemma_first_match_wins(lookup, numbers, i);
    lemma_single_report(lookup, report);
}

/// Match absence: a report that does not verify, or that discloses no
/// observed number, yields no match.
pub proof fn lemma_match_absence(observed: Seq<ObservedTcn>, report: Seq<u8>)
    requires
        verified_report(report) matches Some((numbers, _)) ==> forall|i: int|
            0 <= i < numbers.len() ==> !is_observed(observed, #[trigger] numbers[i]),
    ensures
        matches_of(lookup_of(observed), seq![report]) == Seq::<(Seq<u8>, UnixTime)>::empty(),
{
    let lookup = lookup_of(observed);
    if verified_report(report) is Some {
        let numbers = verified_report(report).unwrap().0;
        lemma_first_match_found(lookup, numbers);
        if first_match(lookup, numbers) is Some {
            let i = choose|i: int|
                0 <= i < numbers.len() && lookup.contains_key(tcn_key(#[trigger] numbers[i]));
            lemma_lookup_holds_observed(observed, numbers[i]);
        }
    }
    lemma_single_report(lookup, report);
}

/// The matches of a batch of one report.
pub proof fn lemma_single_report(lookup: Map<u128, ObservedTcn>, report: Seq<u8>)
    ensures
        matches_of(lookup, seq![report]) == match contact_time_of(lookup, report) {
            Some(time) => seq![(report, time)],
            None => Seq::empty(),
        },
{
    let batch = seq![report];
    assert(batch.drop_last() =~= Seq::<Seq<u8>>::empty());
    assert(matches_of(lookup, batch.drop_last()) == Seq::<(Seq<u8>, UnixTime)>::empty());
    assert(batch.last() == report);
    match contact_time_of(lookup, report) {
        Some(time) => {
            assert(Seq::<(Seq<u8>, UnixTime)>::empty().push((report, time)) =~= seq![
                (report, time),
            ]);
        },
        None => {},
    }
}

/// How often a match occurs among the matches of a batch: as often as its
/// report occurs in the batch, if that report matches at that time.
pub proof fn lemma_matches_count(
    lookup: Map<u128, ObservedTcn>,
    reports: Seq<Seq<u8>>,
    matched: (Seq<u8>, UnixTime),
)
    ensures
        matches_of(lookup, reports).to_multiset().count(matched) == (if contact_time_of(
            lookup,
            matched.0,
        ) == Some(matched.1) {
            reports.to_multiset().count(matched.0)
        } else {
            0
        }),
    decreases reports.len(),
{
    if reports.len() == 0 {
        reports.to_multiset_ensures();
        matches_of(lookup, reports).to_multiset_ensures();
        assert(!reports.contains(matched.0));
        assert(!matches_of(lookup, reports).contains(matched));
    } else {
        let rest = reports.drop_last();
        let last = reports.last();
        lemma_matches_count(lookup, rest, matched);
        assert(reports =~= rest.push(last));
        to_multiset_build(rest, last);
        match contact_time_of(lookup, last) {
            Some(time) => {
                to_multiset_build(matches_of(lookup, rest), (last, time));
            },
            None => {},
        }
    }
}

/// Engine equivalence: the strategies differ in the order in which the
/// reports of a batch are worked off, and the matches do not depend on it.
/// Two batches that hold the same reports, in whatever order, have the same
/// matches, each as often in the one as in the other.
pub proof fn lemma_matches_order_independent(
    lookup: Map<u128, ObservedTcn>,
    reports: Seq<Seq<u8>>,
    reordered: Seq<Seq<u8>>,
)
    requires
        reports.to_multiset() == reordered.to_multiset(),
    ensures
        matches_of(lookup, reports).to_multiset() == matches_of(lookup, reordered).to_multiset(),
{
    assert forall|matched: (Seq<u8>, UnixTime)|
        matches_of(lookup, reports).to_multiset().count(matched) == matches_of(
            lookup,
            reordered,
        ).to_multiset().count(matched) by {
        lemma_matches_count(lookup, reports, matched);
        lemma_matches_count(lookup, reordered, matched);
    }
    assert(matches_of(lookup, reports).to_multiset() =~= matches_of(
        lookup,
        reordered,
    ).to_multiset());
}

} // verus!
