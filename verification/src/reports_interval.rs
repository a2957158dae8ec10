//! Points in time and the numbered, equal-length windows that reports are
//! published in.

use vstd::prelude::*;

verus! {

/// The length of the windows in which reports are published, where no other
/// is asked for: six hours, in seconds.
pub const DEFAULT_INTERVAL_LENGTH: u64 = 21600;

/// A point in time, in seconds since the Unix epoch.
#[derive(Debug, Clone, Copy, PartialEq, Eq, Structural)]
pub struct UnixTime {
    pub value: u64,
}

/// The window with index `number` among the windows of `length` seconds that
/// tile time from the epoch on: it covers the seconds from `number * length`
/// up to, and not including, `(number + 1) * length`.
#[derive(Debug, Clone, Copy, PartialEq, Eq, Structural)]
pub struct ReportsInterval {
    pub number: u64,
    pub length: u64,
}

/// `chrono::Utc::now`, and `timestamp` on what it returns: the seconds that
/// the system clock counts since the epoch. The clock may show any time, so
/// nothing is claimed of the result.
#[verifier::external_body]
fn system_clock_seconds() -> i64 {
    chrono::Utc::now().timestamp()
}

impl UnixTime {
    /// The time that a clock shows which counts `seconds` since the epoch.
    /// The count is taken as it is, bit by bit: a clock that stands before
    /// the epoch gives a time far in the future.
    pub fn from_timestamp(seconds: i64) -> (time: UnixTime)
        ensures
            time.value == seconds as u64,
    {
        UnixTime { value: seconds as u64 }
    }

    /// The time that the system clock shows.
    pub fn now() -> UnixTime {
        UnixTime::from_timestamp(system_clock_seconds())
    }
}

impl ReportsInterval {
    /// A window has a positive length.
    pub open spec fn wf(&self) -> bool {
        self.length > 0
    }

    /// The first second of the window.
    pub open spec fn spec_start(&self) -> int {
        self.number * self.length
    }

    /// The first second after the window.
    pub open spec fn spec_end(&self) -> int {
        self.spec_start() + self.length
    }

    /// Whether `time` falls into the window.
    pub open spec fn contains(&self, time: UnixTime) -> bool {
        self.spec_start() <= time.value < self.spec_end()
    }

    pub open spec fn spec_next(&self) -> ReportsInterval {
        ReportsInterval { number: (self.number + 1) as u64, length: self.length }
    }

    pub open spec fn spec_starts_before(&self, time: &UnixTime) -> bool {
        self.spec_start() < time.value
    }

    pub open spec fn spec_ends_before(&self, time: &UnixTime) -> bool {
        self.spec_end() < time.value
    }

    /// The window that follows this one.
    #[verifier::when_used_as_spec(spec_next)]
    pub fn next(&self) -> (next: ReportsInterval)
        requires
            self.number < u64::MAX,
        ensures
            next == self.spec_next(),
            next.number == self.number + 1,
            next.length == self.length,
            next.spec_start() == self.spec_end(),
    {
        assert((self.number + 1) * self.length == self.number * self.length + self.length)
            by (nonlinear_arith);
        ReportsInterval { number: self.number + 1, length: self.length }
    }

    /// Whether the window starts strictly before `time`.
    #[verifier::when_used_as_spec(spec_starts_before)]
    pub fn starts_before(&self, time: &UnixTime) -> (before: bool)
        ensures
            before == self.spec_starts_before(time),
    {
        let number: u128 = self.number as u128;
        let length: u128 = self.length as u128;
        assert(number * length <= 0xffff_ffff_ffff_ffff * 0xffff_ffff_ffff_ffff)
            by (nonlinear_arith)
            requires
                0 <= number <= 0xffff_ffff_ffff_ffff,
                0 <= length <= 0xffff_ffff_ffff_ffff,
        ;
        number * length < time.value as u128
    }

    /// Whether the window ends strictly before `time`.
    #[verifier::when_used_as_spec(spec_ends_before)]
    pub fn ends_before(&self, time: &UnixTime) -> (before: bool)
        ensures
            before == self.spec_ends_before(time),
    {
        let number: u128 = self.number as u128;
        let length: u128 = self.length as u128;
        assert(number * length <= 0xffff_ffff_ffff_ffff * 0xffff_ffff_ffff_ffff)
            by (nonlinear_arith)
            requires
                0 <= number <= 0xffff_ffff_ffff_ffff,
                0 <= length <= 0xffff_ffff_ffff_ffff,
        ;
        number * length + length < time.value as u128
    }

    /// The window of `length` seconds that `time` falls into.
    pub fn create_for(time: &UnixTime, length: u64) -> (interval: ReportsInterval)
        requires
            length > 0,
        ensures
            interval.length == length,
            interval.number == time.value / length,
            interval.wf(),
            interval.contains(*time),
    {
        let number: u64 = time.value / length;
        proof {
            let t = time.value as int;
            let l = length as int;
            assert(t == l * (t / l) + t % l && 0 <= t % l < l) by (nonlinear_arith)
                requires
                    l > 0,
            ;
            assert((t / l) * l == l * (t / l)) by (nonlinear_arith);
        }
        ReportsInterval { number, length }
    }

    /// The window of the default length that `time` falls into.
    pub fn create_for_with_default_length(time: &UnixTime) -> (interval: ReportsInterval)
        ensures
            interval.length == DEFAULT_INTERVAL_LENGTH,
            interval.number == time.value / DEFAULT_INTERVAL_LENGTH,
            interval.wf(),
            interval.contains(*time),
    {
        ReportsInterval::create_for(time, DEFAULT_INTERVAL_LENGTH)
    }
}

/// The window with index `number + offset` and the length of `from`.
pub open spec fn window_after(from: ReportsInterval, offset: int) -> ReportsInterval {
    ReportsInterval { number: (from.number + offset) as u64, length: from.length }
}

/// Whether `sequence` holds the windows from `from` on, each the successor
/// of the one before, up to the last that starts before `until`: none where
/// `from` itself does not start before `until`.
pub open spec fn is_interval_sequence(
    sequence: Seq<ReportsInterval>,
    from: ReportsInterval,
    until: UnixTime,
) -> bool {
    &&& forall|i: int|
        0 <= i < sequence.len() ==> {
            &&& from.number + i <= u64::MAX
            &&& #[trigger] sequence[i] == window_after(from, i)
            &&& sequence[i].spec_starts_before(&until)
        }
    &&& (from.number + sequence.len()) * from.length >= until.value
}

/// The seconds from the start of the window to `until`; none where the
/// window does not start before it.
pub open spec fn seconds_until(window: ReportsInterval, until: UnixTime) -> nat {
    if window.spec_start() < until.value {
        (until.value - window.spec_start()) as nat
    } else {
        0
    }
}

/// The windows from `from` on, each the successor of the one before, up to
/// the last that starts before `until`.
pub fn generate_intervals_sequence(from: ReportsInterval, until: &UnixTime) -> (sequence: Vec<
    ReportsInterval,
>)
    requires
        from.wf(),
    ensures
        is_interval_sequence(sequence@, from, *until),
        sequence@.len() == 0 <==> !from.spec_starts_before(until),
{
    let mut sequence: Vec<ReportsInterval> = Vec::new();
    let mut item: ReportsInterval = from;
    while item.starts_before(until)
        invariant
            from.wf(),
            item.length == from.length,
            item.number == from.number + sequence@.len(),
            forall|i: int|
                0 <= i < sequence@.len() ==> {
                    &&& from.number + i <= u64::MAX
                    &&& #[trigger] sequence@[i] == window_after(from, i)
                    &&& sequence@[i].spec_starts_before(until)
                },
        decreases seconds_until(item, *until),
    {
        assert(item.number < until.value) by (nonlinear_arith)
            requires
                item.number * item.length < until.value,
                item.length > 0,
        ;
        sequence.push(item);
        let ghost start = item.spec_start();
        item = item.next();
        assert(item.spec_start() == start + from.length);
    }
    proof {
        lemma_sequence_empty(sequence@, from, *until);
    }
    sequence
}

/// Windows of one length tile time, without gaps and without overlaps: a
/// time falls into the window whose index is the time divided by the length,
/// and into no other.
pub proof fn lemma_one_window_contains(window: ReportsInterval, time: UnixTime)
    requires
        window.wf(),
    ensures
        window.contains(time) <==> window.number == time.value / window.length,
{
    let t = time.value as int;
    let l = window.length as int;
    let n = window.number as int;
    assert(t == l * (t / l) + t % l && 0 <= t % l < l) by (nonlinear_arith)
        requires
            l > 0,
    ;
    if n < t / l {
        assert(n * l + l <= (t / l) * l) by (nonlinear_arith)
            requires
                n + 1 <= t / l,
                l > 0,
        ;
        assert((t / l) * l == l * (t / l)) by (nonlinear_arith);
    } else if n > t / l {
        assert(n * l >= (t / l) * l + l) by (nonlinear_arith)
            requires
                n >= t / l + 1,
                l > 0,
        ;
        assert((t / l) * l == l * (t / l)) by (nonlinear_arith);
    } else {
        assert(n * l == l * (t / l)) by (nonlinear_arith)
            requires
                n == t / l,
        ;
    }
}

/// The windows after `from` follow one another: the window at offset 0 is
/// `from` itself, and the window at each further offset is the successor of
/// the window before it.
pub proof fn lemma_window_after_is_successor(from: ReportsInterval, offset: int)
    requires
        0 <= offset,
        from.number + offset < u64::MAX,
    ensures
        window_after(from, 0) == from,
        window_after(from, offset + 1) == window_after(from, offset).spec_next(),
{
}

/// The sequence of windows is empty if and only if its first window does
/// not start before `until`.
pub proof fn lemma_sequence_empty(
    sequence: Seq<ReportsInterval>,
    from: ReportsInterval,
    until: UnixTime,
)
    requires
        is_interval_sequence(sequence, from, until),
    ensures
        sequence.len() == 0 <==> !from.spec_starts_before(&until),
{
    if sequence.len() > 0 {
        assert(sequence[0] == from);
    }
}

/// There is one sequence of windows from `from` up to `until`, and no other.
pub proof fn lemma_sequence_unique(
    first: Seq<ReportsInterval>,
    second: Seq<ReportsInterval>,
    from: ReportsInterval,
    until: UnixTime,
)
    requires
        is_interval_sequence(first, from, until),
        is_interval_sequence(second, from, until),
    ensures
        first == second,
{
    if first.len() < second.len() {
        let stop = first.len() as int;
        assert(second[stop].spec_starts_before(&until));
        assert(second[stop] == window_after(from, stop));
        assert(false);
    }
    if second.len() < first.len() {
        let stop = second.len() as int;
        assert(first[stop].spec_starts_before(&until));
        assert(first[stop] == window_after(from, stop));
        assert(false);
    }
    assert(first =~= second);
}

} // verus!
