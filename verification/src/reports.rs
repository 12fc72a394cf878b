//! The reports on the host: the diagnosis of its battery, its uptime, and everything
//! that runs on it.
use vstd::prelude::*;

use crate::double;
use crate::double::Double;
use crate::power::BatterySample;
use crate::runtime::{ContainerStats, LabeledContainer};
use crate::split;
use crate::text;
use crate::text::{dec, same, slice};
use crate::time::Timestamp;
use crate::types::{
    BatteryReport, BatteryReportView, DowntimeWindow, PsEntry, PsEntryView, PsKind, PsReport,
    UptimeReport,
};
use crate::uptime;
use crate::uptime::{windows_since, DowntimeRecord};

verus! {

// --------------------------------------------------------------------------- battery

/// The samples from `cutoff` on.
pub open spec fn recent(samples: Seq<BatterySample>, cutoff: Timestamp) -> Seq<BatterySample>
    decreases samples.len(),
{
    if samples.len() == 0 {
        Seq::empty()
    } else {
        let rest = recent(samples.drop_last(), cutoff);
        if samples.last().at.before(cutoff) {
            rest
        } else {
            rest.push(samples.last())
        }
    }
}

pub fn recent_samples(samples: &Vec<BatterySample>, cutoff: Timestamp) -> (r: Vec<BatterySample>)
    ensures
        r@ == recent(samples@, cutoff),
{
    let mut out: Vec<BatterySample> = Vec::new();
    let mut i: usize = 0;
    assert(samples@.take(0) =~= Seq::empty());
    while i < samples.len()
        invariant
            i <= samples.len(),
            out@ == recent(samples@.take(i as int), cutoff),
        decreases samples.len() - i,
    {
        assert(samples@.take(i + 1).drop_last() =~= samples@.take(i as int));
        let s = samples[i];
        if !s.at.is_before(&cutoff) {
            out.push(s);
        }
        i += 1;
    }
    assert(samples@.take(i as int) =~= samples@);
    out
}

/// One figure against another.
#[derive(Debug, Clone, Copy, PartialEq, Eq, Structural)]
pub struct Ratio {
    pub part: u64,
    pub whole: u64,
}

/// Charge cycles over a time.
#[derive(Debug, Clone, Copy, PartialEq, Eq, Structural)]
pub struct CycleSpan {
    pub cycles: u64,
    pub secs: i128,
}

/// The figures of a battery's samples, as they are counted.
#[derive(Debug, Clone, Copy, PartialEq, Eq, Structural)]
pub struct BatteryFigures {
    pub sample_count: usize,
    pub cycle_count: Option<u64>,
    pub capacity_now: Option<Ratio>,
    pub capacity_then: Option<Ratio>,
    /// The cycles from the first sample to the last, where they lie more than a hundredth
    /// of a week apart.
    pub cycles: Option<CycleSpan>,
    /// How many samples were taken on mains.
    pub on_ac: usize,
    /// How many of these at a charge of at least 95 %.
    pub high_charge: usize,
    pub span_secs: i128,
}

/// The number 95.
pub const HIGH_CHARGE_BITS: u64 = 0x4057_C000_0000_0000;

/// The number 80.
pub const HIGH_DWELL_BITS: u64 = 0x4054_0000_0000_0000;

/// The number 3.
pub const MANY_CYCLES_BITS: u64 = 0x4008_0000_0000_0000;

/// The number 35.
pub const WARM_BITS: u64 = 0x4041_8000_0000_0000;

/// The number 100.
pub const HEAVY_LOAD_BITS: u64 = 0x4059_0000_0000_0000;

pub open spec fn capacity(s: BatterySample) -> Option<Ratio> {
    match (s.nominal_capacity_mah, s.design_capacity_mah) {
        (Some(part), Some(whole)) => if whole > 0 {
            Some(Ratio { part, whole })
        } else {
            None
        },
        _ => None,
    }
}

/// Does a sample show a battery that is kept full?
pub open spec fn kept_full(s: BatterySample) -> bool {
    s.soc_pct matches Some(p) && (Double { bits: HIGH_CHARGE_BITS }).at_most(p)
}

pub open spec fn count_ac(samples: Seq<BatterySample>) -> nat
    decreases samples.len(),
{
    if samples.len() == 0 {
        0
    } else {
        count_ac(samples.drop_last()) + if samples.last().on_ac {
            1nat
        } else {
            0
        }
    }
}

pub open spec fn count_full(samples: Seq<BatterySample>) -> nat
    decreases samples.len(),
{
    if samples.len() == 0 {
        0
    } else {
        count_full(samples.drop_last()) + if samples.last().on_ac && kept_full(samples.last()) {
            1nat
        } else {
            0
        }
    }
}

/// The cycles from one sample to a later one, where they lie far enough apart.
pub open spec fn cycle_span(first: BatterySample, last: BatterySample) -> Option<CycleSpan> {
    match (first.cycle_count, last.cycle_count) {
        (Some(a), Some(b)) => if last.at.seconds_after(first.at) > 6048 {
            Some(
                CycleSpan {
                    cycles: if a <= b {
                        (b - a) as u64
                    } else {
                        0
                    },
                    secs: last.at.seconds_after(first.at) as i128,
                },
            )
        } else {
            None
        },
        _ => None,
    }
}

pub open spec fn figures(samples: Seq<BatterySample>) -> BatteryFigures {
    if samples.len() == 0 {
        BatteryFigures {
            sample_count: 0,
            cycle_count: None,
            capacity_now: None,
            capacity_then: None,
            cycles: None,
            on_ac: 0,
            high_charge: 0,
            span_secs: 0,
        }
    } else {
        BatteryFigures {
            sample_count: samples.len() as usize,
            cycle_count: samples.last().cycle_count,
            capacity_now: capacity(samples.last()),
            capacity_then: capacity(samples[0]),
            cycles: cycle_span(samples[0], samples.last()),
            on_ac: count_ac(samples) as usize,
            high_charge: count_full(samples) as usize,
            span_secs: samples.last().at.seconds_after(samples[0].at) as i128,
        }
    }
}

fn capacity_of(s: &BatterySample) -> (r: Option<Ratio>)
    ensures
        r == capacity(*s),
{
    match (s.nominal_capacity_mah, s.design_capacity_mah) {
        (Some(part), Some(whole)) => if whole > 0 {
            Some(Ratio { part, whole })
        } else {
            None
        },
        _ => None,
    }
}

/// What a series of samples counts up to.
pub fn battery_figures(samples: &Vec<BatterySample>) -> (r: BatteryFigures)
    ensures
        r == figures(samples@),
{
    let n = samples.len();
    if n == 0 {
        return BatteryFigures {
            sample_count: 0,
            cycle_count: None,
            capacity_now: None,
            capacity_then: None,
            cycles: None,
            on_ac: 0,
            high_charge: 0,
            span_secs: 0,
        };
    }
    let mut on_ac: usize = 0;
    let mut full: usize = 0;
    let mut i: usize = 0;
    assert(samples@.take(0) =~= Seq::empty());
    let high = Double { bits: HIGH_CHARGE_BITS };
    while i < n
        invariant
            i <= n,
            n == samples.len(),
            on_ac <= i,
            full <= i,
            high == (Double { bits: HIGH_CHARGE_BITS }),
            on_ac == count_ac(samples@.take(i as int)),
            full == count_full(samples@.take(i as int)),
        decreases n - i,
    {
        assert(samples@.take(i + 1).drop_last() =~= samples@.take(i as int));
        let s = samples[i];
        if s.on_ac {
            on_ac += 1;
            let is_full = match s.soc_pct {
                Some(p) => high.le(&p),
                None => false,
            };
            if is_full {
                full += 1;
            }
        }
        i += 1;
    }
    assert(samples@.take(i as int) =~= samples@);
    let first = samples[0];
    let last = samples[n - 1];
    let secs = last.at.seconds_since(&first.at);
    let cycles = match (first.cycle_count, last.cycle_count) {
        (Some(a), Some(b)) => if secs > 6048 {
            Some(CycleSpan { cycles: b.saturating_sub(a), secs })
        } else {
            None
        },
        _ => None,
    };
    BatteryFigures {
        sample_count: n,
        cycle_count: last.cycle_count,
        capacity_now: capacity_of(&last),
        capacity_then: capacity_of(&first),
        cycles,
        on_ac,
        high_charge: full,
        span_secs: secs,
    }
}

/// The figures that are quotients and averages.
#[derive(Debug, Clone, Copy, PartialEq, Eq, Structural)]
pub struct BatteryRates {
    pub sampled_over_days: Double,
    pub capacity_pct: Option<Double>,
    pub capacity_trend_pct: Option<Double>,
    pub cycles_per_week: Option<Double>,
    pub high_soc_dwell_pct: Option<Double>,
    pub avg_temp_c: Option<Double>,
    pub cpu_share_pct: Option<Double>,
}

/// Is there a figure, and is it above a threshold?
pub open spec fn above(x: Option<Double>, bits: u64) -> bool {
    x matches Some(v) && (Double { bits }).less(v)
}

fn is_above(x: Option<Double>, bits: u64) -> (r: bool)
    ensures
        r == above(x, bits),
{
    match x {
        Some(v) => (Double { bits }).lt(&v),
        None => false,
    }
}

pub open spec fn dwell_advice(v: Double) -> Seq<char> {
    "battery sits at >=95% charge "@ + double::fixed_text(v, 0)
        + "% of plugged-in time — enable macOS Optimized Battery Charging (or a charge limiter) to cut high-SoC dwell, the main silent degrader for an always-plugged host"@
}

pub open spec fn cycle_advice(v: Double) -> Seq<char> {
    double::fixed_text(v, 1)
        + " charge cycles/week is high for a plugged-in host — check whether the machine is actually staying on AC"@
}

pub open spec fn heat_advice(v: Double) -> Seq<char> {
    "average battery temperature "@ + double::fixed_text(v, 1)
        + "°C is elevated — heavy container load heats the battery; consider lowering app CPU quotas or improving airflow"@
}

pub open spec fn load_advice(v: Double) -> Seq<char> {
    "Hades containers average "@ + double::fixed_text(v, 0)
        + "% CPU — if battery wear matters, schedule heavy apps to pause on battery (power.on_battery = \"pause\")"@
}

pub open spec fn with_advice(so_far: Seq<Seq<char>>, given: bool, advice: Seq<char>) -> Seq<Seq<char>> {
    if given {
        so_far.push(advice)
    } else {
        so_far
    }
}

/// What can be done against the wear of the battery.
pub open spec fn advice(n: usize, r: BatteryRates) -> Seq<Seq<char>> {
    let a = with_advice(
        Seq::empty(),
        above(r.high_soc_dwell_pct, HIGH_DWELL_BITS),
        dwell_advice(r.high_soc_dwell_pct->0),
    );
    let b = with_advice(
        a,
        above(r.cycles_per_week, MANY_CYCLES_BITS),
        cycle_advice(r.cycles_per_week->0),
    );
    let c = with_advice(b, above(r.avg_temp_c, WARM_BITS), heat_advice(r.avg_temp_c->0));
    let d = with_advice(c, above(r.cpu_share_pct, HEAVY_LOAD_BITS), load_advice(r.cpu_share_pct->0));
    let e = with_advice(
        d,
        d.len() == 0 && n > 0,
        "no battery red flags in the sample window — keep an eye on capacity trend"@,
    );
    with_advice(
        e,
        n == 0,
        "no battery telemetry yet — the daemon samples every 5 minutes; check back soon (or this is a desktop Mac with no battery)"@,
    )
}

fn recommendations(n: usize, r: &BatteryRates) -> (out: Vec<String>)
    ensures
        split::views(out@) == advice(n, *r),
{
    let mut out: Vec<String> = Vec::new();
    assert(split::views(out@) =~= Seq::empty());
    match r.high_soc_dwell_pct {
        Some(v) => {
            if is_above(Some(v), HIGH_DWELL_BITS) {
                let s = "battery sits at >=95% charge ".to_owned().concat(
                    v.fixed(0).as_str(),
                ).concat(
                    "% of plugged-in time — enable macOS Optimized Battery Charging (or a charge limiter) to cut high-SoC dwell, the main silent degrader for an always-plugged host",
                );
                proof {
                    split::lemma_views_push(out@, s);
                }
                out.push(s);
            }
        },
        None => {},
    }
    match r.cycles_per_week {
        Some(v) => {
            if is_above(Some(v), MANY_CYCLES_BITS) {
                let s = v.fixed(1).concat(
                    " charge cycles/week is high for a plugged-in host — check whether the machine is actually staying on AC",
                );
                proof {
                    split::lemma_views_push(out@, s);
                }
                out.push(s);
            }
        },
        None => {},
    }
    match r.avg_temp_c {
        Some(v) => {
            if is_above(Some(v), WARM_BITS) {
                let s = "average battery temperature ".to_owned().concat(
                    v.fixed(1).as_str(),
                ).concat(
                    "°C is elevated — heavy container load heats the battery; consider lowering app CPU quotas or improving airflow",
                );
                proof {
                    split::lemma_views_push(out@, s);
                }
                out.push(s);
            }
        },
        None => {},
    }
    match r.cpu_share_pct {
        Some(v) => {
            if is_above(Some(v), HEAVY_LOAD_BITS) {
                let s = "Hades containers average ".to_owned().concat(v.fixed(0).as_str()).concat(
                    "% CPU — if battery wear matters, schedule heavy apps to pause on battery (power.on_battery = \"pause\")",
                );
                proof {
                    split::lemma_views_push(out@, s);
                }
                out.push(s);
            }
        },
        None => {},
    }
    if out.len() == 0 && n > 0 {
        let s = "no battery red flags in the sample window — keep an eye on capacity trend".to_owned();
        proof {
            split::lemma_views_push(out@, s);
        }
        out.push(s);
    }
    if n == 0 {
        let s =
            "no battery telemetry yet — the daemon samples every 5 minutes; check back soon (or this is a desktop Mac with no battery)".to_owned();
        proof {
            split::lemma_views_push(out@, s);
        }
        out.push(s);
    }
    out
}

/// The "why is my battery degrading" diagnosis. Honest about what Hades contributed.
pub fn battery_report(figures: &BatteryFigures, rates: &BatteryRates) -> (r: BatteryReport)
    ensures
        r@ == (BatteryReportView {
            sampled_over_days: rates.sampled_over_days,
            sample_count: figures.sample_count,
            cycle_count: figures.cycle_count,
            capacity_pct_of_design: rates.capacity_pct,
            capacity_trend_pct: rates.capacity_trend_pct,
            cycles_per_week: rates.cycles_per_week,
            high_soc_dwell_pct: rates.high_soc_dwell_pct,
            avg_temp_c: rates.avg_temp_c,
            hades_cpu_share_pct: rates.cpu_share_pct,
            recommendations: advice(figures.sample_count, *rates),
        }),
{
    BatteryReport {
        sampled_over_days: rates.sampled_over_days,
        sample_count: figures.sample_count,
        cycle_count: figures.cycle_count,
        capacity_pct_of_design: rates.capacity_pct,
        capacity_trend_pct: rates.capacity_trend_pct,
        cycles_per_week: rates.cycles_per_week,
        high_soc_dwell_pct: rates.high_soc_dwell_pct,
        avg_temp_c: rates.avg_temp_c,
        hades_cpu_share_pct: rates.cpu_share_pct,
        recommendations: recommendations(figures.sample_count, rates),
    }
}

// ---------------------------------------------------------------------------- uptime

pub open spec fn window_of(r: DowntimeRecord) -> DowntimeWindow {
    DowntimeWindow { start: r.start, end: r.end, secs: r.secs, cause: r.cause }
}

/// The downtime since a time, and how available the host was.
pub fn uptime_report(
    records: &Vec<DowntimeRecord>,
    since: Timestamp,
    availability_pct: Double,
) -> (r: UptimeReport)
    ensures
        r.since == since,
        r.availability_pct == availability_pct,
        r.windows@ == Seq::new(
            uptime::reaching(records@, since).len(),
            |i: int| window_of(uptime::reaching(records@, since)[i]),
        ),
{
    let down = windows_since(records, since);
    let mut windows: Vec<DowntimeWindow> = Vec::new();
    let mut i: usize = 0;
    while i < down.len()
        invariant
            i <= down.len(),
            windows@.len() == i,
            forall|j: int| 0 <= j < i ==> #[trigger] windows@[j] == window_of(down@[j]),
        decreases down.len() - i,
    {
        let d = down[i];
        windows.push(DowntimeWindow { start: d.start, end: d.end, secs: d.secs, cause: d.cause });
        i += 1;
    }
    assert(windows@ =~= Seq::new(down@.len(), |i: int| window_of(down@[i])));
    UptimeReport { since, availability_pct, windows }
}

// ------------------------------------------------------------------------- processes

/// The first characters of a container's id.
pub open spec fn short_id(id: Seq<char>) -> Seq<char> {
    if id.len() <= 12 {
        id
    } else {
        id.take(12)
    }
}

pub fn shorten(id: &str) -> (r: String)
    ensures
        r@ == short_id(id@),
{
    if id.unicode_len() <= 12 {
        id.to_owned()
    } else {
        assert(id@.subrange(0, 12) =~= id@.take(12));
        slice(id, 0, 12)
    }
}

/// A container, and its live figures where it runs.
#[derive(Debug)]
pub struct SampledContainer {
    pub container: LabeledContainer,
    pub stats: Option<ContainerStats>,
}

/// A tunnel's process, and its live memory where it still runs.
#[derive(Debug)]
pub struct SampledProcess {
    pub key: String,
    pub pid: u32,
    pub rss_mb: Option<Double>,
}

pub open spec fn daemon_entry(pid: u32, rss_mb: Option<Double>) -> PsEntryView {
    PsEntryView {
        kind: PsKind::Daemon,
        app: None,
        id: text::decimal(pid as nat),
        detail: "hadesd"@,
        rss_mb,
        cpu_pct: None,
        state: "running"@,
    }
}

pub open spec fn container_entry(c: SampledContainer) -> PsEntryView {
    PsEntryView {
        kind: PsKind::Container,
        app: Some(c.container.app@),
        id: short_id(c.container.id@),
        detail: c.container.name@,
        rss_mb: match c.stats {
            Some(s) => Some(s.memory_used_mb),
            None => None,
        },
        cpu_pct: match c.stats {
            Some(s) => Some(s.cpu_pct),
            None => None,
        },
        state: c.container.state@,
    }
}

pub open spec fn process_entry(p: SampledProcess) -> PsEntryView {
    PsEntryView {
        kind: PsKind::Cloudflared,
        app: Some(p.key@),
        id: text::decimal(p.pid as nat),
        detail: "cloudflared quick tunnel"@,
        rss_mb: p.rss_mb,
        cpu_pct: None,
        state: if p.rss_mb is Some {
            "running"@
        } else {
            "dead"@
        },
    }
}

/// Is a container one whose live figures are asked for?
pub fn is_running(c: &LabeledContainer) -> (r: bool)
    ensures
        r == (c.state@ == "running"@),
{
    same(c.state.as_str(), "running")
}

/// Everything that runs: the daemon itself, every labelled container, every cloudflared.
pub fn ps_report(
    pid: u32,
    rss_mb: Option<Double>,
    containers: &Vec<SampledContainer>,
    processes: &Vec<SampledProcess>,
) -> (r: PsReport)
    ensures
        r@.entries == seq![daemon_entry(pid, rss_mb)] + Seq::new(
            containers@.len(),
            |i: int| container_entry(containers@[i]),
        ) + Seq::new(processes@.len(), |i: int| process_entry(processes@[i])),
{
    let mut entries: Vec<PsEntry> = Vec::new();
    entries.push(
        PsEntry {
            kind: PsKind::Daemon,
            app: None,
            id: dec(pid as u64),
            detail: "hadesd".to_owned(),
            rss_mb,
            cpu_pct: None,
            state: "running".to_owned(),
        },
    );
    let ghost head = daemon_entry(pid, rss_mb);
    let mut i: usize = 0;
    while i < containers.len()
        invariant
            i <= containers.len(),
            entries@.len() == i + 1,
            entries@[0]@ == head,
            forall|j: int|
                0 <= j < i ==> (#[trigger] entries@[j + 1])@ == container_entry(containers@[j]),
        decreases containers.len() - i,
    {
        let c = &containers[i];
        let ghost before = entries@;
        entries.push(
            PsEntry {
                kind: PsKind::Container,
                app: Some(c.container.app.clone()),
                id: shorten(c.container.id.as_str()),
                detail: c.container.name.clone(),
                rss_mb: match &c.stats {
                    Some(s) => Some(s.memory_used_mb),
                    None => None,
                },
                cpu_pct: match &c.stats {
                    Some(s) => Some(s.cpu_pct),
                    None => None,
                },
                state: c.container.state.clone(),
            },
        );
        assert forall|j: int| 0 <= j < i + 1 implies (#[trigger] entries@[j + 1])@
            == container_entry(containers@[j]) by {
            if j < i {
                assert(entries@[j + 1] == before[j + 1]);
            }
        }
        i += 1;
    }
    let ghost done = entries@;
    let ghost n = containers@.len() as int;
    let mut k: usize = 0;
    while k < processes.len()
        invariant
            k <= processes.len(),
            done.len() == n + 1,
            entries@.len() == n + 1 + k,
            forall|j: int| 0 <= j < done.len() ==> #[trigger] entries@[j] == done[j],
            forall|j: int|
                0 <= j < k ==> (#[trigger] entries@[n + 1 + j])@ == process_entry(processes@[j]),
        decreases processes.len() - k,
    {
        let p = &processes[k];
        let ghost before = entries@;
        let running = p.rss_mb.is_some();
        entries.push(
            PsEntry {
                kind: PsKind::Cloudflared,
                app: Some(p.key.clone()),
                id: dec(p.pid as u64),
                detail: "cloudflared quick tunnel".to_owned(),
                rss_mb: p.rss_mb,
                cpu_pct: None,
                state: if running {
                    "running".to_owned()
                } else {
                    "dead".to_owned()
                },
            },
        );
        assert forall|j: int| 0 <= j < k + 1 implies (#[trigger] entries@[n + 1 + j])@
            == process_entry(processes@[j]) by {
            if j < k {
                assert(entries@[n + 1 + j] == before[n + 1 + j]);
            }
        }
        k += 1;
    }
    let r = PsReport { entries };
    proof {
        let want = seq![head] + Seq::new(
            containers@.len(),
            |i: int| container_entry(containers@[i]),
        ) + Seq::new(processes@.len(), |i: int| process_entry(processes@[i]));
        assert(r@.entries.len() == want.len());
        assert forall|j: int| 0 <= j < want.len() implies #[trigger] r@.entries[j] == want[j] by {
            if j == 0 {
                assert(r.entries@[0] == done[0]);
            } else if j <= n {
                assert(r.entries@[j] == done[j]);
                assert(done[(j - 1) + 1]@ == container_entry(containers@[j - 1]));
            } else {
                assert(r.entries@[n + 1 + (j - n - 1)]@ == process_entry(processes@[j - n - 1]));
            }
        }
        assert(r@.entries =~= want);
    }
    r
}

// ---------------------------------------------------------------------------- laws

/// The thresholds of the diagnosis are the whole numbers that they are named after.
pub proof fn thresholds_are_whole()
    ensures
        (Double { bits: HIGH_CHARGE_BITS }).significand() == 95 * 0x4000_0000_0000,
        (Double { bits: HIGH_CHARGE_BITS }).power() == -46,
        (Double { bits: HIGH_DWELL_BITS }).significand() == 80 * 0x4000_0000_0000,
        (Double { bits: HIGH_DWELL_BITS }).power() == -46,
        (Double { bits: MANY_CYCLES_BITS }).significand() == 3 * 0x8_0000_0000_0000,
        (Double { bits: MANY_CYCLES_BITS }).power() == -51,
        (Double { bits: WARM_BITS }).significand() == 35 * 0x8000_0000_0000,
        (Double { bits: WARM_BITS }).power() == -47,
        (Double { bits: HEAVY_LOAD_BITS }).significand() == 100 * 0x4000_0000_0000,
        (Double { bits: HEAVY_LOAD_BITS }).power() == -46,
{
}

/// There is always advice; where no figure is above its threshold, it is the all-clear
/// and nothing else.
pub proof fn there_is_always_advice(n: usize, r: BatteryRates)
    ensures
        advice(n, r).len() > 0,
        n > 0 && !above(r.high_soc_dwell_pct, HIGH_DWELL_BITS) && !above(
            r.cycles_per_week,
            MANY_CYCLES_BITS,
        ) && !above(r.avg_temp_c, WARM_BITS) && !above(r.cpu_share_pct, HEAVY_LOAD_BITS)
            ==> advice(n, r) == seq![
            "no battery red flags in the sample window — keep an eye on capacity trend"@,
        ],
{
}

/// The samples that count are those from the cutoff on, in their order; of these are counted
/// those on mains, and those that are on mains at a charge of ninety-five percent or more.
pub proof fn samples_are_counted_from_the_cutoff_on(
    samples: Seq<BatterySample>,
    cutoff: Timestamp,
)
    ensures
        recent(samples, cutoff) == samples.filter(
            |s: BatterySample|
                s.at.secs > cutoff.secs || s.at.secs == cutoff.secs && s.at.nanos >= cutoff.nanos,
        ),
        count_ac(samples) == samples.filter(|s: BatterySample| s.on_ac).len(),
        count_full(samples) == samples.filter(
            |s: BatterySample|
                s.on_ac && s.soc_pct is Some && (Double { bits: HIGH_CHARGE_BITS }).at_most(
                    s.soc_pct->0,
                ),
        ).len(),
    decreases samples.len(),
{
    reveal(Seq::filter);
    if samples.len() > 0 {
        samples_are_counted_from_the_cutoff_on(samples.drop_last(), cutoff);
    }
}

/// The battery's figures compare its last sample with its first, and its capacity with that
/// of its design.
pub proof fn figures_compare_last_with_first(samples: Seq<BatterySample>)
    requires
        0 < samples.len() <= usize::MAX,
        samples[0].at.plain(),
        samples.last().at.plain(),
        samples[0].at.nanos == samples.last().at.nanos,
    ensures
        ({
            let f = figures(samples);
            let (a, z) = (samples[0], samples[samples.len() - 1]);
            let secs = z.at.secs - a.at.secs;
            &&& f.sample_count == samples.len() && f.cycle_count == z.cycle_count && f.span_secs
                == secs
            &&& f.capacity_now matches Some(r) ==> Some(r.part) == z.nominal_capacity_mah && Some(
                r.whole,
            ) == z.design_capacity_mah
            &&& f.capacity_then matches Some(r) ==> Some(r.part) == a.nominal_capacity_mah && Some(
                r.whole,
            ) == a.design_capacity_mah
            &&& f.cycles is Some <==> a.cycle_count is Some && z.cycle_count is Some && secs > 6048
            &&& f.cycles matches Some(c) ==> c.secs == secs && (a.cycle_count->0 <= z.cycle_count->0
                ==> c.cycles == z.cycle_count->0 - a.cycle_count->0)
        }),
{
}

/// Each figure above its threshold is advised on, and no other is.
pub proof fn what_is_too_high_is_advised_on(n: usize, r: BatteryRates)
    requires
        n > 0,
    ensures
        ({
            let all = advice(n, r);
            let dwell = above(r.high_soc_dwell_pct, HIGH_DWELL_BITS);
            let cycles = above(r.cycles_per_week, MANY_CYCLES_BITS);
            let heat = above(r.avg_temp_c, WARM_BITS);
            let load = above(r.cpu_share_pct, HEAVY_LOAD_BITS);
            let flags = (if dwell { 1int } else { 0 }) + (if cycles { 1int } else { 0 }) + (if heat {
                1int
            } else {
                0
            }) + (if load { 1int } else { 0 });
            &&& dwell ==> all.contains(dwell_advice(r.high_soc_dwell_pct->0))
            &&& cycles ==> all.contains(cycle_advice(r.cycles_per_week->0))
            &&& heat ==> all.contains(heat_advice(r.avg_temp_c->0))
            &&& load ==> all.contains(load_advice(r.cpu_share_pct->0))
            &&& flags > 0 ==> all.len() == flags
        }),
{
    let all = advice(n, r);
    let dwell = above(r.high_soc_dwell_pct, HIGH_DWELL_BITS);
    let cycles = above(r.cycles_per_week, MANY_CYCLES_BITS);
    let heat = above(r.avg_temp_c, WARM_BITS);
    let load = above(r.cpu_share_pct, HEAVY_LOAD_BITS);
    let i: int = if dwell { 1 } else { 0 };
    let j: int = i + if cycles { 1int } else { 0 };
    let k: int = j + if heat { 1int } else { 0 };
    if dwell {
        assert(all[0] == dwell_advice(r.high_soc_dwell_pct->0));
    }
    if cycles {
        assert(all[i] == cycle_advice(r.cycles_per_week->0));
    }
    if heat {
        assert(all[j] == heat_advice(r.avg_temp_c->0));
    }
    if load {
        assert(all[k] == load_advice(r.cpu_share_pct->0));
    }
}

/// What runs is told as it is: each container and each tunnel's process with its own app,
/// number and figures; a process that uses no memory any more is dead.
pub proof fn processes_are_told_as_they_are(c: SampledContainer, p: SampledProcess, pid: u32)
    ensures
        ({
            let e = container_entry(c);
            &&& e.kind == PsKind::Container && e.app == Some(c.container.app@) && e.detail
                == c.container.name@ && e.state == c.container.state@
            &&& e.id.len() <= 12 && e.id == c.container.id@.take(e.id.len() as int)
            &&& c.container.id@.len() >= 12 ==> e.id.len() == 12
            &&& c.stats matches Some(s) ==> e.rss_mb == Some(s.memory_used_mb) && e.cpu_pct == Some(
                s.cpu_pct,
            )
            &&& c.stats is None ==> e.rss_mb is None && e.cpu_pct is None
        }),
        ({
            let e = process_entry(p);
            &&& e.kind == PsKind::Cloudflared && e.app == Some(p.key@) && e.id == text::decimal(
                p.pid as nat,
            ) && e.rss_mb == p.rss_mb
            &&& p.rss_mb is Some ==> e.state == "running"@
            &&& p.rss_mb is None ==> e.state == "dead"@
        }),
        ({
            let e = daemon_entry(pid, p.rss_mb);
            e.kind == PsKind::Daemon && e.app is None && e.id == text::decimal(pid as nat)
                && e.rss_mb == p.rss_mb && e.state == "running"@
        }),
{
    let id = c.container.id@;
    if id.len() <= 12 {
        assert(id.take(id.len() as int) =~= id);
    }
}

} // verus!
