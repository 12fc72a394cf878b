//! OS probes: what the host's own tools report, read from their output.
use vstd::prelude::*;

use crate::double::Double;
use crate::events::DowntimeCause;
use crate::number;
use crate::number::{parse_i64, parse_u64};
use crate::split;
use crate::split::{lines, words};
use crate::text;
use crate::text::{
    has, has_prefix, has_suffix, text_after, text_before, trim_trailing, trimmed, without_prefix,
};
use crate::time;
use crate::time::{parse_by_format, utc_at, Timestamp};

verus! {

#[derive(Debug, Clone, Copy, PartialEq, Eq, Structural)]
pub struct PowerSnapshot {
    pub on_ac: bool,
    pub battery_pct: Option<Double>,
}

/// What `pmset -g batt` reports: mains or not, and the charge as it is written.
#[derive(Debug)]
pub struct PowerReading {
    pub on_ac: bool,
    pub charge: Option<String>,
}

#[derive(Debug, Clone, Copy, PartialEq, Eq, Structural)]
pub struct BatteryHealth {
    pub cycle_count: Option<u64>,
    pub design_capacity_mah: Option<u64>,
    pub nominal_capacity_mah: Option<u64>,
    /// Hundredths of a degree Celsius.
    pub temperature_centi: Option<i64>,
}

impl BatteryHealth {
    /// Capacity now and by design, where both are known and the latter is not zero.
    pub fn capacity_of_design(&self) -> (r: Option<(u64, u64)>)
        ensures
            r == match (self.nominal_capacity_mah, self.design_capacity_mah) {
                (Some(n), Some(d)) => if d > 0 {
                    Some((n, d))
                } else {
                    None
                },
                _ => None,
            },
    {
        match (self.nominal_capacity_mah, self.design_capacity_mah) {
            (Some(n), Some(d)) => if d > 0 {
                Some((n, d))
            } else {
                None
            },
            _ => None,
        }
    }
}

/// The probes of a Mac. Each method reads the output of one tool; without output
/// there is no reading.
#[derive(Debug, Clone, Copy, PartialEq, Eq, Structural)]
pub struct MacProbe;

// ----------------------------------------------------------------------- ioreg

/// The first line that starts with `"key" = ` decides; its value must be a number.
pub open spec fn ioreg_from(ls: Seq<Seq<char>>, prefix: Seq<char>, from: int) -> Option<int>
    decreases ls.len() - from,
{
    if from < 0 || from >= ls.len() {
        None
    } else {
        match text::strip_prefix(text::trim(ls[from]), prefix) {
            Some(rest) => number::signed(text::trim(rest)),
            None => ioreg_from(ls, prefix, from + 1),
        }
    }
}

pub open spec fn ioreg_value(raw: Seq<char>, key: Seq<char>) -> Option<int> {
    ioreg_from(split::line_list(raw), "\""@ + key + "\" = "@, 0)
}

/// Pull `"Key" = 123` style integers out of `ioreg -rn AppleSmartBattery`.
pub fn ioreg_int(raw: &str, key: &str) -> (r: Option<i64>)
    ensures
        r is Some == ioreg_value(raw@, key@) is Some,
        r matches Some(v) ==> v == ioreg_value(raw@, key@)->0,
{
    let prefix = "\"".to_owned().concat(key).concat("\" = ");
    let ls = lines(raw);
    let mut i: usize = 0;
    while i < ls.len()
        invariant
            i <= ls.len(),
            prefix@ == "\""@ + key@ + "\" = "@,
            split::views(ls@) == split::line_list(raw@),
            ioreg_from(split::views(ls@), prefix@, i as int) == ioreg_value(raw@, key@),
        decreases ls.len() - i,
    {
        assert(split::views(ls@)[i as int] == ls@[i as int]@);
        let t = trimmed(ls[i].as_str());
        match without_prefix(t.as_str(), prefix.as_str()) {
            Some(rest) => {
                return parse_i64(trimmed(rest.as_str()).as_str());
            },
            None => {},
        }
        i += 1;
    }
    None
}

/// The capacity, cycle and temperature figures, as unsigned numbers.
pub open spec fn as_unsigned(v: Option<int>) -> Option<u64> {
    match v {
        Some(n) => Some((n as i64) as u64),
        None => None,
    }
}

pub open spec fn first_of(a: Option<int>, b: Option<int>) -> Option<int> {
    if a is Some {
        a
    } else {
        b
    }
}

pub open spec fn health_of(raw: Seq<char>) -> Option<BatteryHealth> {
    if text::trim(raw).len() == 0 {
        None
    } else {
        Some(
            BatteryHealth {
                cycle_count: as_unsigned(ioreg_value(raw, "CycleCount"@)),
                design_capacity_mah: as_unsigned(ioreg_value(raw, "DesignCapacity"@)),
                nominal_capacity_mah: as_unsigned(
                    first_of(
                        ioreg_value(raw, "NominalChargeCapacity"@),
                        ioreg_value(raw, "AppleRawMaxCapacity"@),
                    ),
                ),
                temperature_centi: match ioreg_value(raw, "Temperature"@) {
                    Some(n) => Some(n as i64),
                    None => None,
                },
            },
        )
    }
}

fn unsigned_of(v: Option<i64>) -> (r: Option<u64>)
    ensures
        r == match v {
            Some(n) => Some(n as u64),
            None => None::<u64>,
        },
{
    match v {
        Some(n) => Some(n as u64),
        None => None,
    }
}

// ----------------------------------------------------------------------- power

/// The first word of a list that ends with `%;`.
pub open spec fn charge_word(ws: Seq<Seq<char>>, from: int) -> Option<Seq<char>>
    decreases ws.len() - from,
{
    if from < 0 || from >= ws.len() {
        None
    } else if text::ends_with(ws[from], "%;"@) {
        Some(ws[from])
    } else {
        charge_word(ws, from + 1)
    }
}

/// The first such word of the first line that has one.
pub open spec fn charge_in(ls: Seq<Seq<char>>, from: int) -> Option<Seq<char>>
    decreases ls.len() - from,
{
    if from < 0 || from >= ls.len() {
        None
    } else {
        match charge_word(split::word_list(ls[from]), 0) {
            Some(w) => Some(text::drop_trailing(w, "%;"@)),
            None => charge_in(ls, from + 1),
        }
    }
}

fn find_charge(line: &str) -> (r: Option<String>)
    ensures
        r is Some == charge_word(split::word_list(line@), 0) is Some,
        r matches Some(w) ==> w@ == charge_word(split::word_list(line@), 0)->0,
{
    let ws = words(line);
    let mut i: usize = 0;
    while i < ws.len()
        invariant
            i <= ws.len(),
            split::views(ws@) == split::word_list(line@),
            charge_word(split::views(ws@), i as int) == charge_word(split::word_list(line@), 0),
        decreases ws.len() - i,
    {
        assert(split::views(ws@)[i as int] == ws@[i as int]@);
        if has_suffix(ws[i].as_str(), "%;") {
            return Some(ws[i].clone());
        }
        i += 1;
    }
    None
}

// ----------------------------------------------------------------------- sleep

/// The time that a line of the power log starts with.
pub open spec fn log_time(line: Seq<char>) -> Option<Timestamp> {
    let ws = split::word_list(line);
    if ws.len() < 3 {
        None
    } else {
        time::time_by_format(ws[0] + " "@ + ws[1] + " "@ + ws[2], "%Y-%m-%d %H:%M:%S %z"@)
    }
}

/// "2026-06-09 01:23:45 -0700 ...": the first three fields are the time.
pub fn parse_pmset_timestamp(line: &str) -> (r: Option<Timestamp>)
    ensures
        r == log_time(line@),
        r matches Some(t) ==> t.valid(),
{
    let ws = words(line);
    assert(ws@.len() == split::views(ws@).len());
    if ws.len() < 3 {
        return None;
    }
    assert(split::views(ws@)[0] == ws@[0]@);
    assert(split::views(ws@)[1] == ws@[1]@);
    assert(split::views(ws@)[2] == ws@[2]@);
    let s = ws[0].clone().concat(" ").concat(ws[1].as_str()).concat(" ").concat(ws[2].as_str());
    parse_by_format(s.as_str(), "%Y-%m-%d %H:%M:%S %z")
}

/// Does the line of the power log tell that the machine went to sleep?
pub open spec fn tells_sleep(line: Seq<char>) -> bool {
    text::contains(line, " Sleep "@) && text::contains(line, "Entering Sleep"@)
}

/// The times of the lines that tell of sleep, in order.
pub open spec fn sleep_times(ls: Seq<Seq<char>>) -> Seq<Timestamp>
    decreases ls.len(),
{
    if ls.len() == 0 {
        Seq::empty()
    } else {
        let before = sleep_times(ls.drop_last());
        match log_time(ls.last()) {
            Some(t) => if tells_sleep(ls.last()) {
                before.push(t)
            } else {
                before
            },
            None => before,
        }
    }
}

/// What one line of `pmset -g custom` does: start or end the mains section, or
/// tell the sleep setting.
pub open spec fn sleep_setting(ls: Seq<Seq<char>>, in_ac: bool, from: int) -> Option<bool>
    decreases ls.len() - from,
{
    if from < 0 || from >= ls.len() {
        None
    } else {
        let t = text::trim(ls[from]);
        if text::starts_with(t, "AC Power"@) {
            sleep_setting(ls, true, from + 1)
        } else if text::starts_with(t, "Battery Power"@) {
            sleep_setting(ls, false, from + 1)
        } else {
            match setting_value(t) {
                Some(v) => if in_ac {
                    Some(v != 0)
                } else {
                    sleep_setting(ls, in_ac, from + 1)
                },
                None => sleep_setting(ls, in_ac, from + 1),
            }
        }
    }
}

/// The number behind the word `sleep` at the start of a line.
pub open spec fn setting_value(t: Seq<char>) -> Option<int> {
    match text::strip_prefix(t, "sleep"@) {
        Some(rest) => {
            let ws = split::word_list(rest);
            if ws.len() == 0 {
                None
            } else {
                number::signed(ws[0])
            }
        },
        None => None,
    }
}

fn setting_of(t: &str) -> (r: Option<i64>)
    ensures
        r is Some == setting_value(t@) is Some,
        r matches Some(v) ==> v == setting_value(t@)->0,
{
    match without_prefix(t, "sleep") {
        Some(rest) => {
            let ws = words(rest.as_str());
            assert(ws@.len() == split::views(ws@).len());
            if ws.len() == 0 {
                None
            } else {
                assert(split::views(ws@)[0] == ws@[0]@);
                parse_i64(ws[0].as_str())
            }
        },
        None => None,
    }
}

/// The seconds in `{ sec = 1760000000, usec = 0 } ...`.
pub open spec fn boot_secs(raw: Seq<char>) -> Option<int> {
    match text::after(raw, "sec ="@) {
        Some(rest) => number::signed(text::trim(text::before(text::before(rest, "sec ="@), ","@))),
        None => None,
    }
}

impl MacProbe {
    /// `pmset -g batt`
    pub fn power(&self, raw: Option<&str>) -> (r: Option<PowerReading>)
        ensures
            r is Some <==> raw is Some,
            r matches Some(p) ==> {
                let charge = charge_in(split::line_list(raw->0@), 0);
                &&& p.on_ac == text::contains(raw->0@, "AC Power"@)
                &&& p.charge is Some == charge is Some
                &&& p.charge is Some ==> p.charge->0@ == charge->0
            },
    {
        let s = match raw {
            Some(s) => s,
            None => {
                return None;
            },
        };
        let on_ac = has(s, "AC Power");
        let ls = lines(s);
        let mut i: usize = 0;
        while i < ls.len()
            invariant
                i <= ls.len(),
                raw == Some(s),
                on_ac == text::contains(s@, "AC Power"@),
                split::views(ls@) == split::line_list(s@),
                charge_in(split::views(ls@), i as int) == charge_in(split::line_list(s@), 0),
            decreases ls.len() - i,
        {
            assert(split::views(ls@)[i as int] == ls@[i as int]@);
            match find_charge(ls[i].as_str()) {
                Some(w) => {
                    return Some(
                        PowerReading { on_ac, charge: Some(trim_trailing(w.as_str(), "%;")) },
                    );
                },
                None => {},
            }
            i += 1;
        }
        Some(PowerReading { on_ac, charge: None })
    }

    /// `ioreg -rn AppleSmartBattery`; a desktop machine has no battery.
    pub fn battery_health(&self, raw: Option<&str>) -> (r: Option<BatteryHealth>)
        ensures
            r == match raw {
                Some(s) => health_of(s@),
                None => None,
            },
    {
        let raw = match raw {
            Some(raw) => raw,
            None => {
                return None;
            },
        };
        let stripped = trimmed(raw);
        if stripped.as_str().unicode_len() == 0 {
            return None;
        }
        let nominal = match ioreg_int(raw, "NominalChargeCapacity") {
            Some(v) => Some(v),
            None => ioreg_int(raw, "AppleRawMaxCapacity"),
        };
        Some(
            BatteryHealth {
                cycle_count: unsigned_of(ioreg_int(raw, "CycleCount")),
                design_capacity_mah: unsigned_of(ioreg_int(raw, "DesignCapacity")),
                nominal_capacity_mah: unsigned_of(nominal),
                temperature_centi: ioreg_int(raw, "Temperature"),
            },
        )
    }

    /// `pmset -g log`: when the machine entered sleep, newest last.
    pub fn sleep_events(&self, raw: Option<&str>) -> (r: Vec<Timestamp>)
        ensures
            r@ == match raw {
                Some(s) => sleep_times(split::line_list(s@)),
                None => Seq::empty(),
            },
    {
        let mut out: Vec<Timestamp> = Vec::new();
        let raw = match raw {
            Some(raw) => raw,
            None => {
                assert(out@ =~= Seq::empty());
                return out;
            },
        };
        let ls = lines(raw);
        let ghost lv = split::views(ls@);
        let mut i: usize = 0;
        assert(lv.take(0) =~= Seq::empty());
        assert(out@ =~= Seq::empty());
        while i < ls.len()
            invariant
                i <= ls.len(),
                lv == split::views(ls@),
                out@ == sleep_times(lv.take(i as int)),
            decreases ls.len() - i,
        {
            assert(lv.take(i + 1).drop_last() =~= lv.take(i as int));
            assert(lv.take(i + 1).last() == ls@[i as int]@);
            let line = ls[i].as_str();
            if has(line, " Sleep ") && has(line, "Entering Sleep") {
                match parse_pmset_timestamp(line) {
                    Some(t) => {
                        out.push(t);
                    },
                    None => {},
                }
            }
            i += 1;
        }
        assert(lv.take(i as int) =~= lv);
        out
    }

    /// `sysctl -n kern.boottime`
    pub fn boot_time(&self, raw: Option<&str>) -> (r: Option<Timestamp>)
        ensures
            r == match raw {
                Some(s) => match boot_secs(s@) {
                    Some(secs) => if time::in_calendar(secs) {
                        Some(Timestamp { secs: secs as i64, nanos: 0 })
                    } else {
                        None
                    },
                    None => None,
                },
                None => None,
            },
    {
        let raw = match raw {
            Some(raw) => raw,
            None => {
                return None;
            },
        };
        let rest = match text_after(raw, "sec =") {
            Some(rest) => rest,
            None => {
                return None;
            },
        };
        let field = text_before(text_before(rest.as_str(), "sec =").as_str(), ",");
        match parse_i64(trimmed(field.as_str()).as_str()) {
            Some(secs) => utc_at(secs),
            None => None,
        }
    }

    /// `pmset -g custom`: does the machine sleep while on mains?
    pub fn sleeps_on_ac(&self, raw: Option<&str>) -> (r: Option<bool>)
        ensures
            r == match raw {
                Some(s) => sleep_setting(split::line_list(s@), false, 0),
                None => None,
            },
    {
        let s = match raw {
            Some(s) => s,
            None => {
                return None;
            },
        };
        let ls = lines(s);
        let mut in_ac: bool = false;
        let mut i: usize = 0;
        while i < ls.len()
            invariant
                i <= ls.len(),
                raw == Some(s),
                split::views(ls@) == split::line_list(s@),
                sleep_setting(split::views(ls@), in_ac, i as int) == sleep_setting(
                    split::line_list(s@),
                    false,
                    0,
                ),
            decreases ls.len() - i,
        {
            assert(split::views(ls@)[i as int] == ls@[i as int]@);
            let t = trimmed(ls[i].as_str());
            if has_prefix(t.as_str(), "AC Power") {
                in_ac = true;
            } else if has_prefix(t.as_str(), "Battery Power") {
                in_ac = false;
            } else if in_ac {
                match setting_of(t.as_str()) {
                    Some(v) => {
                        return Some(v != 0);
                    },
                    None => {},
                }
            }
            i += 1;
        }
        None
    }

    /// `df -Pk /`: the field with the free kilobytes, as it is written.
    pub fn disk_free(&self, raw: Option<&str>) -> (r: Option<String>)
        ensures
            ({
                let field = match raw {
                    Some(s) => {
                        let ls = split::line_list(s@);
                        if ls.len() >= 2 && split::word_list(ls[1]).len() >= 4 {
                            Some(split::word_list(ls[1])[3])
                        } else {
                            None
                        }
                    },
                    None => None,
                };
                &&& r is Some == field is Some
                &&& r is Some ==> r->0@ == field->0
            }),
    {
        let raw = match raw {
            Some(raw) => raw,
            None => {
                return None;
            },
        };
        let ls = lines(raw);
        assert(ls@.len() == split::views(ls@).len());
        if ls.len() < 2 {
            return None;
        }
        assert(split::views(ls@)[1] == ls@[1]@);
        let ws = words(ls[1].as_str());
        assert(ws@.len() == split::views(ws@).len());
        if ws.len() < 4 {
            return None;
        }
        assert(split::views(ws@)[3] == ws@[3]@);
        Some(ws[3].clone())
    }

    /// `sysctl -n hw.memsize`
    pub fn mac_total_memory_mb(&self, raw: Option<&str>) -> (r: Option<u64>)
        ensures
            r == match raw {
                Some(s) => match number::unsigned(text::trim(s@), u64::MAX as nat) {
                    Some(b) => Some((b / 1_048_576) as u64),
                    None => None,
                },
                None => None,
            },
    {
        match raw {
            Some(raw) => match parse_u64(trimmed(raw).as_str()) {
                Some(b) => Some(b / 1_048_576),
                None => None,
            },
            None => None,
        }
    }
}

// ------------------------------------------------------------- classification

/// Did the machine enter sleep between 90 seconds before the last heartbeat and
/// now?
pub open spec fn slept_between(
    events: Seq<Timestamp>,
    last_heartbeat: Timestamp,
    now: Timestamp,
) -> bool {
    exists|i: int|
        0 <= i < events.len() && !(#[trigger] events[i]).before(last_heartbeat.earlier_by(90))
            && !now.before(events[i])
}

/// What a downtime was: a boot after the last heartbeat means a reboot; else a
/// sleep in the gap means sleep; else the daemon died while the machine was up, if
/// that is known.
pub open spec fn downtime_cause(
    last_heartbeat: Timestamp,
    boot_time: Option<Timestamp>,
    sleep_events: Seq<Timestamp>,
    now: Timestamp,
) -> DowntimeCause {
    if boot_time is Some && last_heartbeat.before(boot_time->0) {
        DowntimeCause::Rebooted
    } else if slept_between(sleep_events, last_heartbeat, now) {
        DowntimeCause::Slept
    } else if boot_time is Some {
        DowntimeCause::Crashed
    } else {
        DowntimeCause::Unknown
    }
}

/// Classify a downtime window from when the daemon last gave a heartbeat, when the
/// kernel booted, and the machine's sleep history.
pub fn classify_downtime(
    last_heartbeat: Timestamp,
    boot_time: Option<Timestamp>,
    sleep_events: &Vec<Timestamp>,
    now: Timestamp,
) -> (r: DowntimeCause)
    requires
        last_heartbeat.valid(),
    ensures
        r == downtime_cause(last_heartbeat, boot_time, sleep_events@, now),
{
    match boot_time {
        Some(boot) => {
            if last_heartbeat.is_before(&boot) {
                return DowntimeCause::Rebooted;
            }
        },
        None => {},
    }
    let from = last_heartbeat.minus_secs(90);
    let mut i: usize = 0;
    while i < sleep_events.len()
        invariant
            i <= sleep_events.len(),
            from == last_heartbeat.earlier_by(90),
            boot_time is Some ==> !last_heartbeat.before(boot_time->0),
            forall|j: int|
                0 <= j < i ==> (#[trigger] sleep_events@[j]).before(from) || now.before(
                    sleep_events@[j],
                ),
        decreases sleep_events.len() - i,
    {
        let t = sleep_events[i];
        if !t.is_before(&from) && !now.is_before(&t) {
            assert(slept_between(sleep_events@, last_heartbeat, now));
            return DowntimeCause::Slept;
        }
        i += 1;
    }
    if boot_time.is_some() {
        DowntimeCause::Crashed
    } else {
        DowntimeCause::Unknown
    }
}

/// Is a gap much larger than the tick interval?
pub open spec fn is_jump(expected_tick_secs: u64, actual_gap_secs: u64) -> bool {
    actual_gap_secs > expected_tick_secs * 3 + 5
}

/// Used by the daemon's live heartbeat loop: a wall-clock jump much larger than the
/// tick interval means that the machine slept rather than ran.
pub fn is_wall_clock_jump(expected_tick_secs: u64, actual_gap_secs: u64) -> (r: bool)
    requires
        expected_tick_secs * 3 + 5 <= u64::MAX,
    ensures
        r == is_jump(expected_tick_secs, actual_gap_secs),
{
    actual_gap_secs > expected_tick_secs * 3 + 5
}

// ------------------------------------------------------------------------ laws

/// A reboot explains a downtime whatever else happened in it.
pub proof fn reboot_wins(
    last_heartbeat: Timestamp,
    boot: Timestamp,
    sleep_events: Seq<Timestamp>,
    now: Timestamp,
)
    requires
        last_heartbeat.before(boot),
    ensures
        downtime_cause(last_heartbeat, Some(boot), sleep_events, now) == DowntimeCause::Rebooted,
{
}

/// Without a known boot time no downtime is called a crash or a reboot; with one,
/// none is left unexplained.
pub proof fn causes_need_evidence(
    last_heartbeat: Timestamp,
    boot: Option<Timestamp>,
    sleep_events: Seq<Timestamp>,
    now: Timestamp,
)
    ensures
        boot is None ==> downtime_cause(last_heartbeat, boot, sleep_events, now)
            != DowntimeCause::Crashed && downtime_cause(last_heartbeat, boot, sleep_events, now)
            != DowntimeCause::Rebooted,
        boot is Some ==> downtime_cause(last_heartbeat, boot, sleep_events, now)
            != DowntimeCause::Unknown,
        sleep_events.len() == 0 ==> downtime_cause(last_heartbeat, boot, sleep_events, now)
            != DowntimeCause::Slept,
{
}

/// Where no boot explains it, a downtime was sleep if and only if the machine fell asleep at
/// some time from ninety seconds before the last heartbeat until now.
pub proof fn sleep_explains_what_no_boot_does(
    last_heartbeat: Timestamp,
    boot: Option<Timestamp>,
    sleep_events: Seq<Timestamp>,
    now: Timestamp,
)
    requires
        last_heartbeat.plain(),
        boot matches Some(b) ==> b.secs < last_heartbeat.secs,
    ensures
        downtime_cause(last_heartbeat, boot, sleep_events, now) == DowntimeCause::Slept
            <==> exists|i: int|
            0 <= i < sleep_events.len() && ({
                let e = #[trigger] sleep_events[i];
                let from = last_heartbeat.secs - 90;
                &&& e.secs > from || e.secs == from && e.nanos >= last_heartbeat.nanos
                &&& e.secs < now.secs || e.secs == now.secs && e.nanos <= now.nanos
            }),
        (forall|i: int| 0 <= i < sleep_events.len() ==> now.before(#[trigger] sleep_events[i]))
            ==> downtime_cause(last_heartbeat, boot, sleep_events, now) == if boot is Some {
            DowntimeCause::Crashed
        } else {
            DowntimeCause::Unknown
        },
{
    if slept_between(sleep_events, last_heartbeat, now) {
        let i = choose|i: int|
            0 <= i < sleep_events.len() && !(#[trigger] sleep_events[i]).before(
                last_heartbeat.earlier_by(90),
            ) && !now.before(sleep_events[i]);
        let e = sleep_events[i];
        assert(e.secs >= last_heartbeat.secs - 90);
    }
    assert forall|i: int| 0 <= i < sleep_events.len() && ({
        let e = #[trigger] sleep_events[i];
        let from = last_heartbeat.secs - 90;
        &&& e.secs > from || e.secs == from && e.nanos >= last_heartbeat.nanos
        &&& e.secs < now.secs || e.secs == now.secs && e.nanos <= now.nanos
    }) implies slept_between(sleep_events, last_heartbeat, now) by {
        let e = sleep_events[i];
        assert(!e.before(last_heartbeat.earlier_by(90)));
        assert(!now.before(e));
    }
}

/// The power log is read line by line: a line that tells of sleep gives its time, any other
/// nothing, and the order is that of the log.
pub proof fn logs_are_read_line_by_line(a: Seq<Seq<char>>, b: Seq<Seq<char>>, line: Seq<char>)
    ensures
        sleep_times(a + b) == sleep_times(a) + sleep_times(b),
        text::contains(line, " Sleep "@) && text::contains(line, "Entering Sleep"@) && log_time(
            line,
        ) is Some ==> sleep_times(seq![line]) == seq![log_time(line)->0],
        !text::contains(line, "Entering Sleep"@) || !text::contains(line, " Sleep "@) || log_time(
            line,
        ) is None ==> sleep_times(seq![line]).len() == 0,
    decreases b.len(),
{
    if b.len() > 0 {
        logs_are_read_line_by_line(a, b.drop_last(), line);
        assert((a + b).drop_last() =~= a + b.drop_last());
        assert(sleep_times(a + b) =~= sleep_times(a) + sleep_times(b));
    } else {
        assert(a + b =~= a);
        assert(sleep_times(a) + sleep_times(b) =~= sleep_times(a));
    }
    let one = seq![line];
    assert(one.drop_last() =~= Seq::empty());
    assert(sleep_times(one.drop_last()) =~= Seq::empty());
    if log_time(line) is Some && tells_sleep(line) {
        assert(sleep_times(one) =~= seq![log_time(line)->0]);
    }
}

/// A figure of the battery is the number behind its key, on the first line that has the key.
pub proof fn figures_stand_behind_their_key(
    ls: Seq<Seq<char>>,
    key: Seq<char>,
    k: int,
    from: int,
)
    requires
        0 <= from <= k < ls.len(),
        text::starts_with(text::trim(ls[k]), "\""@ + key + "\" = "@),
        forall|i: int|
            from <= i < k ==> !text::starts_with(text::trim(#[trigger] ls[i]), "\""@ + key + "\" = "@),
    ensures
        ioreg_from(ls, "\""@ + key + "\" = "@, from) == number::signed(
            text::trim(text::trim(ls[k]).skip(("\""@ + key + "\" = "@).len() as int)),
        ),
    decreases k - from,
{
    if from < k {
        figures_stand_behind_their_key(ls, key, k, from + 1);
    }
}

/// Whether a machine sleeps on mains is told by the mains section alone: a setting before the
/// first heading, or under the battery's, does not count.
pub proof fn only_the_mains_section_counts(ls: Seq<Seq<char>>, k: int, from: int, v: int)
    requires
        0 <= from < k < ls.len(),
        text::trim(ls[from]) == "AC Power:"@,
        forall|i: int|
            from < i < k ==> setting_value(text::trim(#[trigger] ls[i])) is None
                && !text::starts_with(text::trim(ls[i]), "Battery Power"@),
        setting_value(text::trim(ls[k])) == Some(v),
        !text::starts_with(text::trim(ls[k]), "Battery Power"@),
        !text::starts_with(text::trim(ls[k]), "AC Power"@),
    ensures
        sleep_setting(ls, false, from) == Some(v != 0),
{
    reveal_strlit("AC Power:");
    reveal_strlit("AC Power");
    assert("AC Power:"@.take(8) =~= "AC Power"@);
    lemma_section(ls, k, from + 1, v);
}

proof fn lemma_section(ls: Seq<Seq<char>>, k: int, from: int, v: int)
    requires
        0 <= from <= k < ls.len(),
        forall|i: int|
            from <= i < k ==> setting_value(text::trim(#[trigger] ls[i])) is None
                && !text::starts_with(text::trim(ls[i]), "Battery Power"@),
        setting_value(text::trim(ls[k])) == Some(v),
        !text::starts_with(text::trim(ls[k]), "Battery Power"@),
        !text::starts_with(text::trim(ls[k]), "AC Power"@),
    ensures
        sleep_setting(ls, true, from) == Some(v != 0),
    decreases k - from,
{
    if from < k {
        lemma_section(ls, k, from + 1, v);
    }
}

/// And where the battery section alone holds a setting, nothing is told.
pub proof fn battery_settings_tell_nothing(ls: Seq<Seq<char>>, from: int)
    requires
        0 <= from <= ls.len(),
        forall|i: int|
            from <= i < ls.len() ==> !text::starts_with(text::trim(#[trigger] ls[i]), "AC Power"@),
    ensures
        sleep_setting(ls, false, from) is None,
    decreases ls.len() - from,
{
    if from < ls.len() {
        battery_settings_tell_nothing(ls, from + 1);
    }
}

/// The charge of the battery is the first percentage in the list: a word that ends with a
/// percent sign and a semicolon.
pub proof fn the_first_percentage_is_the_charge(
    ls: Seq<Seq<char>>,
    line: int,
    word: int,
    charge: Seq<char>,
)
    requires
        0 <= line < ls.len(),
        0 <= word < split::word_list(ls[line]).len(),
        split::word_list(ls[line])[word] == charge + "%;"@,
        !text::ends_with(charge, "%;"@),
        forall|k: int|
            0 <= k < word ==> !text::ends_with(
                #[trigger] split::word_list(ls[line])[k],
                "%;"@,
            ),
        forall|i: int, k: int|
            0 <= i < line && 0 <= k < split::word_list(ls[i]).len() ==> !text::ends_with(
                #[trigger] split::word_list(ls[i])[k],
                "%;"@,
            ),
    ensures
        charge_in(ls, 0) == Some(charge),
{
    reveal_strlit("%;");
    let ws = split::word_list(ls[line]);
    assert(text::ends_with(charge + "%;"@, "%;"@)) by {
        text::texts_are_found_where_they_stand(charge, "%;"@, Seq::empty());
    }
    lemma_charge_word(ws, 0, word);
    text::repetitions_are_dropped(charge, "%;"@);
    lemma_charge_line(ls, 0, line);
}

proof fn lemma_charge_word(ws: Seq<Seq<char>>, from: int, word: int)
    requires
        0 <= from <= word < ws.len(),
        text::ends_with(ws[word], "%;"@),
        forall|k: int| from <= k < word ==> !text::ends_with(#[trigger] ws[k], "%;"@),
    ensures
        charge_word(ws, from) == Some(ws[word]),
    decreases word - from,
{
    if from < word {
        lemma_charge_word(ws, from + 1, word);
    }
}

proof fn lemma_no_charge(ws: Seq<Seq<char>>, from: int)
    requires
        0 <= from,
        forall|k: int| from <= k < ws.len() ==> !text::ends_with(#[trigger] ws[k], "%;"@),
    ensures
        charge_word(ws, from) is None,
    decreases ws.len() - from,
{
    if from < ws.len() {
        lemma_no_charge(ws, from + 1);
    }
}

proof fn lemma_charge_line(ls: Seq<Seq<char>>, from: int, line: int)
    requires
        0 <= from <= line < ls.len(),
        charge_word(split::word_list(ls[line]), 0) is Some,
        forall|i: int, k: int|
            from <= i < line && 0 <= k < split::word_list(ls[i]).len() ==> !text::ends_with(
                #[trigger] split::word_list(ls[i])[k],
                "%;"@,
            ),
    ensures
        charge_in(ls, from) == Some(
            text::drop_trailing(charge_word(split::word_list(ls[line]), 0)->0, "%;"@),
        ),
    decreases line - from,
{
    if from < line {
        lemma_no_charge(split::word_list(ls[from]), 0);
        lemma_charge_line(ls, from + 1, line);
    }
}

/// The time of the boot is the number of seconds that comes first.
pub proof fn the_boot_is_read_in_seconds(n: nat, b: Seq<char>)
    requires
        n <= i64::MAX,
    ensures
        boot_secs("{ sec = "@ + text::decimal(n) + ","@ + b) == Some(n as int),
{
    reveal_strlit("{ sec = ");
    reveal_strlit("sec =");
    reveal_strlit(",");
    let d = text::decimal(n);
    let key = "sec ="@;
    let raw = "{ sec = "@ + d + ","@ + b;
    number::lemma_decimal_reads_back(n);
    number::signed_numbers_are_read_back(n as int);
    assert(raw.subrange(2, 7) =~= key);
    assert(text::stands_at(raw, key, 2));
    text::lemma_first_at(raw, key, 0);
    assert(text::first_at(raw, key, 0) == Some(2int)) by {
        let i = text::first_at(raw, key, 0)->0;
        assert(raw.subrange(i, i + 5)[0] == raw[i]);
        assert(raw[0] == '{' && raw[1] == ' ');
    }
    let rest = raw.skip(7);
    assert(rest =~= seq![' '] + d + ","@ + b);
    lemma_boot_piece(d, b);
    assert(text::is_digit(d[0]) && text::is_digit(d[d.len() - 1]));
    text::lemma_trim_around(seq![' '], d, Seq::empty());
    assert(seq![' '] + d + Seq::<char>::empty() =~= seq![' '] + d);
}

/// The number of seconds ends at the first comma.
proof fn lemma_boot_piece(d: Seq<char>, b: Seq<char>)
    requires
        number::all_digits(d),
        d.len() > 0,
    ensures
        text::before(text::before(seq![' '] + d + ","@ + b, "sec ="@), ","@) == seq![' '] + d,
{
    reveal_strlit("sec =");
    reveal_strlit(",");
    let rest = seq![' '] + d + ","@ + b;
    let m = d.len() as int;
    assert forall|j: int| 0 <= j < m + 1 implies #[trigger] rest[j] != ',' && rest[j] != 's' by {
        if j > 0 {
            assert(rest[j] == d[j - 1]);
            assert(text::is_digit(d[j - 1]));
        }
    }
    assert(rest[m + 1] == ',');
    lemma_before_later(rest, "sec ="@, m + 2);
    let piece = text::before(rest, "sec ="@);
    assert forall|j: int| 0 <= j < m + 2 implies #[trigger] piece[j] == rest[j] by {
        assert(piece.take(m + 2)[j] == rest.take(m + 2)[j]);
    }
    lemma_before_here(piece, ',', m + 1);
    assert(","@ =~= seq![',']);
    assert(piece.take(m + 1) =~= seq![' '] + d);
}

/// Where a text can begin only later, what stands before it is not touched.
proof fn lemma_before_later(s: Seq<char>, p: Seq<char>, m: int)
    requires
        p.len() > 0,
        0 <= m <= s.len(),
        forall|j: int| 0 <= j < m ==> #[trigger] s[j] != p[0],
    ensures
        text::before(s, p).len() >= m,
        text::before(s, p).take(m) == s.take(m),
{
    text::lemma_first_at(s, p, 0);
    if text::first_at(s, p, 0) is Some {
        let j = text::first_at(s, p, 0)->0;
        assert(s.subrange(j, j + p.len())[0] == s[j]);
        assert(text::before(s, p).take(m) =~= s.take(m));
    }
}

/// A text up to the first place of a character.
proof fn lemma_before_here(s: Seq<char>, c: char, m: int)
    requires
        0 <= m < s.len(),
        s[m] == c,
        forall|j: int| 0 <= j < m ==> #[trigger] s[j] != c,
    ensures
        text::before(s, seq![c]) == s.take(m),
{
    assert(s.subrange(m, m + 1) =~= seq![c]);
    assert(text::stands_at(s, seq![c], m));
    text::lemma_first_at(s, seq![c], 0);
    let j = text::first_at(s, seq![c], 0)->0;
    assert(s.subrange(j, j + 1)[0] == s[j]);
}

/// A battery is told by the figures behind their keys, each by its own; the raw capacity stands
/// in only where there is no nominal one. Where nothing was printed there is no battery.
pub proof fn batteries_are_told_by_their_figures(raw: Seq<char>)
    ensures
        health_of(raw) is None <==> text::trim(raw).len() == 0,
        health_of(raw) matches Some(h) ==> {
            &&& h.cycle_count is Some <==> ioreg_value(raw, "CycleCount"@) is Some
            &&& ioreg_value(raw, "CycleCount"@) matches Some(n) ==> 0 <= n <= i64::MAX
                ==> h.cycle_count->0 == n
            &&& h.design_capacity_mah is Some <==> ioreg_value(raw, "DesignCapacity"@) is Some
            &&& ioreg_value(raw, "DesignCapacity"@) matches Some(n) ==> 0 <= n <= i64::MAX
                ==> h.design_capacity_mah->0 == n
            &&& h.nominal_capacity_mah is Some <==> ioreg_value(raw, "NominalChargeCapacity"@)
                is Some || ioreg_value(raw, "AppleRawMaxCapacity"@) is Some
            &&& ioreg_value(raw, "NominalChargeCapacity"@) matches Some(n) ==> 0 <= n <= i64::MAX
                ==> h.nominal_capacity_mah->0 == n
            &&& ioreg_value(raw, "NominalChargeCapacity"@) is None ==> (ioreg_value(
                raw,
                "AppleRawMaxCapacity"@,
            ) matches Some(n) ==> 0 <= n <= i64::MAX ==> h.nominal_capacity_mah->0 == n)
            &&& h.temperature_centi is Some <==> ioreg_value(raw, "Temperature"@) is Some
            &&& ioreg_value(raw, "Temperature"@) matches Some(n) ==> i64::MIN <= n <= i64::MAX
                ==> h.temperature_centi->0 == n
        },
{
}

} // verus!
