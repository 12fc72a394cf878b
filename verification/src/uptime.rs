//! The uptime ledger: a heartbeat timestamp on disk plus an append-only list of
//! classified downtime windows. The daemon writes the heartbeat every
//! `heartbeat_secs`; on startup it reads the gap and classifies it.
use vstd::prelude::*;

use crate::events::DowntimeCause;
use crate::probe;
use crate::text;
use crate::text::trimmed;
use crate::time;
use crate::time::{parse_rfc3339, write_rfc3339, Timestamp};

verus! {

#[derive(Debug, Clone, Copy, PartialEq, Eq, Structural)]
pub struct DowntimeRecord {
    pub start: Timestamp,
    pub end: Timestamp,
    pub secs: u64,
    pub cause: DowntimeCause,
}

#[derive(Debug)]
pub struct UptimeLedger {
    pub heartbeat_path: String,
    pub ledger_path: String,
}

impl UptimeLedger {
    pub fn new(heartbeat_path: String, ledger_path: String) -> (r: UptimeLedger)
        ensures
            r.heartbeat_path == heartbeat_path,
            r.ledger_path == ledger_path,
    {
        UptimeLedger { heartbeat_path, ledger_path }
    }
}

/// The time that a heartbeat file holds.
pub open spec fn beat_in(raw: Option<Seq<char>>) -> Option<Timestamp> {
    match raw {
        Some(s) => time::rfc3339_time(text::trim(s)),
        None => None,
    }
}

/// What a heartbeat written at `now` holds. In the years 0 to 9999 the last heartbeat is
/// read back from it.
pub fn heartbeat_text(now: Timestamp) -> (r: String)
    requires
        now.valid(),
    ensures
        r@ == time::rfc3339_text(now),
        now.of_common_era() ==> beat_in(Some(r@)) == Some(now),
{
    write_rfc3339(now)
}

/// The time of the last heartbeat, from the contents of its file. There is none without
/// a file.
pub fn last_heartbeat(raw: Option<&str>) -> (r: Option<Timestamp>)
    ensures
        r == beat_in(match raw {
            Some(s) => Some(s@),
            None => None,
        }),
        r matches Some(t) ==> t.valid(),
{
    match raw {
        Some(s) => parse_rfc3339(trimmed(s).as_str()),
        None => None,
    }
}

// --------------------------------------------------------------------- windows

/// The windows that reach into the time from `since` on, in order.
pub open spec fn reaching(records: Seq<DowntimeRecord>, since: Timestamp) -> Seq<DowntimeRecord>
    decreases records.len(),
{
    if records.len() == 0 {
        Seq::empty()
    } else {
        let before = reaching(records.drop_last(), since);
        if records.last().end.before(since) {
            before
        } else {
            before.push(records.last())
        }
    }
}

/// The windows of the ledger that end at `since` or later.
pub fn windows_since(records: &Vec<DowntimeRecord>, since: Timestamp) -> (r: Vec<DowntimeRecord>)
    ensures
        r@ == reaching(records@, since),
{
    let mut out: Vec<DowntimeRecord> = Vec::new();
    let mut i: usize = 0;
    assert(records@.take(0) =~= Seq::empty());
    while i < records.len()
        invariant
            i <= records.len(),
            out@ == reaching(records@.take(i as int), since),
        decreases records.len() - i,
    {
        assert(records@.take(i + 1).drop_last() =~= records@.take(i as int));
        let rec = records[i];
        if !rec.end.is_before(&since) {
            out.push(rec);
        }
        i += 1;
    }
    assert(records@.take(i as int) =~= records@);
    out
}

pub open spec fn later(a: Timestamp, b: Timestamp) -> Timestamp {
    if a.before(b) {
        b
    } else {
        a
    }
}

pub open spec fn earlier(a: Timestamp, b: Timestamp) -> Timestamp {
    if b.before(a) {
        b
    } else {
        a
    }
}

/// The seconds of a window that fall between `since` and `now`.
pub open spec fn clamped_secs(r: DowntimeRecord, since: Timestamp, now: Timestamp) -> int {
    let secs = earlier(r.end, now).seconds_after(later(r.start, since));
    if secs < 0 {
        0
    } else {
        secs
    }
}

/// The seconds of all windows that fall between `since` and `now`.
pub open spec fn down_secs(records: Seq<DowntimeRecord>, since: Timestamp, now: Timestamp) -> int
    decreases records.len(),
{
    if records.len() == 0 {
        0
    } else {
        down_secs(records.drop_last(), since, now) + clamped_secs(records.last(), since, now)
    }
}

/// The seconds from `since` to `now`, at least one.
pub open spec fn total_secs(since: Timestamp, now: Timestamp) -> int {
    let secs = now.seconds_after(since);
    if secs < 1 {
        1
    } else {
        secs
    }
}

/// Seconds down, of how many.
#[derive(Debug, Clone, Copy, PartialEq, Eq, Structural)]
pub struct Availability {
    pub down_secs: i128,
    pub total_secs: i128,
}

/// How long the host was down between `since` and `now`, each window taken only as
/// far as it lies in between.
pub fn availability(
    records: &Vec<DowntimeRecord>,
    since: Timestamp,
    now: Timestamp,
) -> (r: Availability)
    requires
        since.valid(),
        now.valid(),
    ensures
        r.total_secs == total_secs(since, now),
        r.down_secs == down_secs(reaching(records@, since), since, now),
        r.down_secs >= 0,
{
    let windows = windows_since(records, since);
    let span: i128 = now.seconds_since(&since);
    let total: i128 = if span < 1 {
        1
    } else {
        span
    };
    let mut down: i128 = 0;
    let mut i: usize = 0;
    assert(windows@.take(0) =~= Seq::empty());
    while i < windows.len()
        invariant
            i <= windows.len(),
            down == down_secs(windows@.take(i as int), since, now),
            0 <= down <= i * 0x2000_0000_0000,
            since.valid(),
            now.valid(),
        decreases windows.len() - i,
    {
        assert(windows@.take(i + 1).drop_last() =~= windows@.take(i as int));
        let w = windows[i];
        let start = if w.start.is_before(&since) {
            since
        } else {
            w.start
        };
        let end = if now.is_before(&w.end) {
            now
        } else {
            w.end
        };
        let secs: i128 = end.seconds_since(&start);
        let part: i128 = if secs < 0 {
            0
        } else {
            secs
        };
        assert(part <= 0x2000_0000_0000);
        assert(i * 0x2000_0000_0000 <= 0x1_0000_0000_0000_0000 * 0x2000_0000_0000)
            by (nonlinear_arith)
            requires
                i <= 0x1_0000_0000_0000_0000,
        ;
        down = down + part;
        i += 1;
    }
    assert(windows@.take(i as int) =~= windows@);
    Availability { down_secs: down, total_secs: total }
}

// ------------------------------------------------------------------------ gaps

/// Is the time between two ticks much longer than the tick interval?
pub open spec fn has_gap(prev: Timestamp, now: Timestamp, tick_secs: u64) -> bool {
    now.nanos_after(prev) > (tick_secs * 3 + 5) * 1_000_000_000
}

/// Gap-detection helper for the live heartbeat loop: given the previous tick time,
/// decide whether the host slept through the interval. The gap comes in
/// nanoseconds.
pub fn detect_gap(prev: Timestamp, now: Timestamp, tick_secs: u64) -> (r: Option<i128>)
    requires
        tick_secs * 3 + 5 <= i64::MAX,
    ensures
        r is Some <==> has_gap(prev, now, tick_secs),
        r matches Some(gap) ==> gap == now.nanos_after(prev),
{
    let gap: i128 = now.nanos_since(&prev);
    let limit: i128 = (tick_secs as i128 * 3 + 5) * 1_000_000_000;
    if gap > limit {
        Some(gap)
    } else {
        None
    }
}

// ------------------------------------------------------------------------ laws

/// The two gap detectors agree: a heartbeat so many seconds after the last one shows a gap
/// if and only if so many seconds are a jump of the clock. Left out is the one gap at the
/// threshold that begins in a leap second and ends no later in its day, which counts for a
/// second less.
pub proof fn gap_detectors_agree(prev: Timestamp, gap_secs: u64, tick_secs: u64)
    requires
        prev.valid(),
        time::in_calendar(prev.secs + gap_secs),
        !(prev.is_leap() && gap_secs == tick_secs * 3 + 6 && time::second_of_day(
            prev.later_by(gap_secs as int).secs,
        ) <= time::second_of_day(prev.secs)),
    ensures
        has_gap(prev, prev.later_by(gap_secs as int), tick_secs) == probe::is_jump(
            tick_secs,
            gap_secs,
        ),
{
    let now = prev.later_by(gap_secs as int);
    assert(now.secs == prev.secs + gap_secs);
}

/// A window that ended before the report began does not count, whatever its length.
pub proof fn old_windows_do_not_count(
    records: Seq<DowntimeRecord>,
    old_window: DowntimeRecord,
    since: Timestamp,
    now: Timestamp,
)
    requires
        old_window.end.before(since),
    ensures
        down_secs(reaching(records.push(old_window), since), since, now) == down_secs(
            reaching(records, since),
            since,
            now,
        ),
{
    assert(records.push(old_window).drop_last() =~= records);
}

/// No window counts for more than the time that is reported on, where no leap second
/// is in play.
pub proof fn a_window_counts_at_most_the_report(
    r: DowntimeRecord,
    since: Timestamp,
    now: Timestamp,
)
    requires
        r.start.plain(),
        r.end.plain(),
        since.plain(),
        now.plain(),
    ensures
        0 <= clamped_secs(r, since, now),
        clamped_secs(r, since, now) <= total_secs(since, now),
{
}

/// The windows that count are those that end no earlier than the report begins, all of them
/// and in their order.
pub proof fn windows_count_from_the_report_on(records: Seq<DowntimeRecord>, since: Timestamp)
    ensures
        reaching(records, since) == records.filter(
            |r: DowntimeRecord|
                r.end.secs > since.secs || r.end.secs == since.secs && r.end.nanos >= since.nanos,
        ),
    decreases records.len(),
{
    reveal(Seq::filter);
    if records.len() > 0 {
        windows_count_from_the_report_on(records.drop_last(), since);
    }
}

/// In whole seconds, a window counts for what it has in common with the time that is
/// reported on.
pub proof fn windows_count_for_their_overlap(r: DowntimeRecord, since: Timestamp, now: Timestamp)
    requires
        r.start.nanos == 0,
        r.end.nanos == 0,
        since.nanos == 0,
        now.nanos == 0,
    ensures
        ({
            let from = if r.start.secs > since.secs {
                r.start.secs
            } else {
                since.secs
            };
            let to = if r.end.secs < now.secs {
                r.end.secs
            } else {
                now.secs
            };
            clamped_secs(r, since, now) == if to > from {
                to - from
            } else {
                0
            }
        }),
        total_secs(since, now) == if now.secs > since.secs {
            now.secs - since.secs
        } else {
            1
        },
{
}

/// The time down is that of all windows together.
pub proof fn windows_add_up(
    a: Seq<DowntimeRecord>,
    b: Seq<DowntimeRecord>,
    since: Timestamp,
    now: Timestamp,
)
    ensures
        down_secs(a + b, since, now) == down_secs(a, since, now) + down_secs(b, since, now),
        a.len() == 1 ==> down_secs(a, since, now) == clamped_secs(a[0], since, now),
    decreases b.len(),
{
    if b.len() > 0 {
        windows_add_up(a, b.drop_last(), since, now);
        assert((a + b).drop_last() =~= a + b.drop_last());
    } else {
        assert(a + b =~= a);
    }
    if a.len() == 1 {
        assert(down_secs(a.drop_last(), since, now) == 0);
    }
}

/// A heartbeat shows a gap if and only if it comes more than three ticks and five seconds
/// after the last one.
pub proof fn gaps_are_longer_than_three_ticks(prev: Timestamp, now: Timestamp, tick_secs: u64)
    requires
        prev.plain(),
        now.plain(),
        prev.nanos == now.nanos,
    ensures
        has_gap(prev, now, tick_secs) <==> now.secs - prev.secs > 3 * tick_secs + 5,
        now.secs >= prev.secs ==> (probe::is_jump(tick_secs, (now.secs - prev.secs) as u64)
            <==> now.secs - prev.secs > 3 * tick_secs + 5),
{
}

} // verus!
