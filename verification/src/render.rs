//! What people read: reports and answers as lines of text. (Machines read the same as
//! one JSON object, which is left to the caller.)
use vstd::prelude::*;

use crate::doctor;
use crate::doctor::{CheckView, DoctorReport, DoctorReportView};
use crate::double;
use crate::double::Double;
use crate::events;
use crate::events::humanize_secs;
use crate::init;
use crate::init::{InitReport, InitReportView, InitStep, InitStepView};
use crate::split;
use crate::text;
use crate::text::dec;
use crate::time;
use crate::time::{format_time, Timestamp};
use crate::types;
use crate::types::{
    AppInfo, AppInfoView, AppStats, AppStatsView, BatteryReport, BatteryReportView, DeployResponse,
    DeployResponseView, DomainClaim, DomainClaimList, DomainClaimListView, DomainClaimView,
    DowntimeWindow, FleetDeviceView, FleetDeviceViewView, FleetView, HostStatus, HostStatusView,
    PsEntry, PsEntryView, PsKind, PsReport, PsReportView,
    ReplicaStats, ReplicaStatsView, SecretsView, SecretsViewView, UptimeReport, UptimeReportView,
};
use crate::values;

verus! {

// ------------------------------------------------------------------------------ layout

/// So many spaces.
pub open spec fn spaces(n: nat) -> Seq<char> {
    Seq::new(n, |i: int| ' ')
}

/// A text, filled up with spaces behind it.
pub open spec fn padded_right(s: Seq<char>, width: nat) -> Seq<char> {
    if s.len() < width {
        s + spaces((width - s.len()) as nat)
    } else {
        s
    }
}

/// A text, filled up with spaces before it.
pub open spec fn padded_left(s: Seq<char>, width: nat) -> Seq<char> {
    if s.len() < width {
        spaces((width - s.len()) as nat) + s
    } else {
        s
    }
}

fn space_text(n: usize) -> (r: String)
    ensures
        r@ == spaces(n as nat),
{
    let mut out = String::new();
    let mut i: usize = 0;
    assert(out@ =~= spaces(0));
    while i < n
        invariant
            i <= n,
            out@ == spaces(i as nat),
        decreases n - i,
    {
        out.push(' ');
        assert(out@ =~= spaces((i + 1) as nat));
        i += 1;
    }
    out
}

pub fn pad_right(s: &str, width: usize) -> (r: String)
    ensures
        r@ == padded_right(s@, width as nat),
{
    let n = s.unicode_len();
    if n < width {
        s.to_owned().concat(space_text(width - n).as_str())
    } else {
        s.to_owned()
    }
}

pub fn pad_left(s: &str, width: usize) -> (r: String)
    ensures
        r@ == padded_left(s@, width as nat),
{
    let n = s.unicode_len();
    if n < width {
        space_text(width - n).concat(s)
    } else {
        s.to_owned()
    }
}

/// A number with its sign, also where it is positive.
pub open spec fn signed_text(x: Double, places: nat) -> Seq<char> {
    if x.is_nan() || x.negative() {
        double::fixed_text(x, places)
    } else {
        "+"@ + double::fixed_text(x, places)
    }
}

fn signed(x: Double, places: u64) -> (r: String)
    requires
        places <= 2,
    ensures
        r@ == signed_text(x, places as nat),
{
    if (x.bits / 0x10_0000_0000_0000) % 2048 == 2047 && x.bits % 0x10_0000_0000_0000 != 0 || x.bits
        >= 0x8000_0000_0000_0000 {
        x.fixed(places)
    } else {
        "+".to_owned().concat(x.fixed(places).as_str())
    }
}

/// The text of an option, or another one.
pub open spec fn or_else(o: Option<Seq<char>>, other: Seq<char>) -> Seq<char> {
    match o {
        Some(s) => s,
        None => other,
    }
}

fn or_text(o: &Option<String>, other: &str) -> (r: String)
    ensures
        r@ == or_else(values::opt_view(*o), other@),
{
    match o {
        Some(s) => s.clone(),
        None => other.to_owned(),
    }
}

/// Adds a line.
fn put(page: &mut Vec<String>, line: String)
    ensures
        split::views(final(page)@) == split::views(old(page)@).push(line@),
{
    proof {
        split::lemma_views_push(page@, line);
    }
    page.push(line);
}

/// Adds lines.
fn put_all(page: &mut Vec<String>, more: Vec<String>)
    ensures
        split::views(final(page)@) == split::views(old(page)@) + split::views(more@),
{
    let ghost before = page@;
    let ghost added = more@;
    let mut more = more;
    page.append(&mut more);
    assert(split::views(page@) =~= split::views(before) + split::views(added));
}

fn blank_page() -> (r: Vec<String>)
    ensures
        split::views(r@) == Seq::<Seq<char>>::empty(),
{
    let r: Vec<String> = Vec::new();
    assert(split::views(r@) =~= Seq::empty());
    r
}

// ------------------------------------------------------------------------------ doctor

pub open spec fn mark_of(ok: bool, warn: bool) -> Seq<char> {
    if ok {
        "✓"@
    } else if warn {
        "!"@
    } else {
        "✗"@
    }
}

fn mark(ok: bool, warn: bool) -> (r: &'static str)
    ensures
        r@ == mark_of(ok, warn),
{
    if ok {
        "✓"
    } else if warn {
        "!"
    } else {
        "✗"
    }
}

/// A check, and below it what can be done about it.
pub open spec fn check_lines(c: CheckView) -> Seq<Seq<char>> {
    let first = seq![mark_of(c.ok, c.warn) + " "@ + padded_right(c.name, 12) + " "@ + c.detail];
    match c.remedy {
        Some(r) => if !c.ok {
            first.push("  "@ + padded_right(""@, 12) + " ↳ "@ + r)
        } else {
            first
        },
        None => first,
    }
}

pub open spec fn all_check_lines(checks: Seq<CheckView>) -> Seq<Seq<char>>
    decreases checks.len(),
{
    if checks.len() == 0 {
        Seq::empty()
    } else {
        all_check_lines(checks.drop_last()) + check_lines(checks.last())
    }
}

pub open spec fn doctor_lines(report: DoctorReportView) -> Seq<Seq<char>> {
    all_check_lines(report.checks).push(""@).push(
        if report.green {
            "doctor: GREEN, host is ready for deploys"@
        } else {
            "doctor: RED, deploys are refused until the failures above are fixed"@
        },
    )
}

pub fn doctor(report: &DoctorReport) -> (r: Vec<String>)
    ensures
        split::views(r@) == doctor_lines(report@),
{
    let ghost cv = report@.checks;
    let mut page = blank_page();
    let mut i: usize = 0;
    assert(cv.take(0) =~= Seq::empty());
    while i < report.checks.len()
        invariant
            i <= report.checks.len(),
            cv == report@.checks,
            split::views(page@) == all_check_lines(cv.take(i as int)),
        decreases report.checks.len() - i,
    {
        assert(cv.take(i + 1).drop_last() =~= cv.take(i as int));
        assert(cv.take(i + 1).last() == report.checks@[i as int]@);
        let ghost so_far = split::views(page@);
        let c = &report.checks[i];
        put(
            &mut page,
            mark(c.ok, c.warn).to_owned().concat(" ")
                .concat(pad_right(c.name.as_str(), 12).as_str()).concat(" ")
                .concat(c.detail.as_str()),
        );
        match &c.remedy {
            Some(r) => {
                if !c.ok {
                    put(
                        &mut page,
                        "  ".to_owned().concat(pad_right("", 12).as_str()).concat(" ↳ ")
                            .concat(r.as_str()),
                    );
                }
            },
            None => {},
        }
        assert(split::views(page@) =~= so_far + check_lines(c@));
        i += 1;
    }
    assert(cv.take(i as int) =~= cv);
    put(&mut page, "".to_owned());
    if report.green {
        put(&mut page, "doctor: GREEN, host is ready for deploys".to_owned());
    } else {
        put(
            &mut page,
            "doctor: RED, deploys are refused until the failures above are fixed".to_owned(),
        );
    }
    page
}

// -------------------------------------------------------------------------------- apps

pub open spec fn app_line_text(a: AppInfoView) -> Seq<char> {
    padded_right(a.name, 14) + " "@ + padded_right(or_else(a.device, "local"@), 8) + " "@
        + padded_right(a.state.name(), 10) + " "@
        + padded_left(text::decimal(a.replicas_running as nat), 2) + "/"@
        + padded_right(text::decimal(a.replicas_desired as nat), 2) + " "@
        + padded_left(text::decimal(a.memory_mb as nat), 6) + "MB "@
        + padded_left(double::fixed_text(a.cpu, 1), 4) + "cpu  "@ + a.local_url + "  "@
        + or_else(a.url, "-"@)
}

fn app_lines_of(v: &Vec<AppInfo>) -> (r: Vec<String>)
    ensures
        split::views(r@) == app_rows(types::app_info_views(v@)),
{
    let ghost vv = types::app_info_views(v@);
    let mut page = blank_page();
    let mut i: usize = 0;
    while i < v.len()
        invariant
            i <= v.len(),
            vv == types::app_info_views(v@),
            split::views(page@) =~= Seq::new(i as nat, |j: int| app_line_text(vv[j])),
        decreases v.len() - i,
    {
        let a = &v[i];
        assert(vv[i as int] == a@);
        put(&mut page, app_line(a));
        i += 1;
    }
    assert(split::views(page@) =~= app_rows(vv));
    page
}

pub open spec fn app_rows(v: Seq<AppInfoView>) -> Seq<Seq<char>> {
    Seq::new(v.len(), |j: int| app_line_text(v[j]))
}

/// An app on one line.
pub fn app_line(a: &AppInfo) -> (r: String)
    ensures
        r@ == app_line_text(a@),
{
    pad_right(a.name.as_str(), 14).concat(" ")
        .concat(pad_right(or_text(&a.device, "local").as_str(), 8).as_str()).concat(" ")
        .concat(pad_right(a.state.as_str(), 10).as_str()).concat(" ")
        .concat(pad_left(dec(a.replicas_running as u64).as_str(), 2).as_str()).concat("/")
        .concat(pad_right(dec(a.replicas_desired as u64).as_str(), 2).as_str()).concat(" ")
        .concat(pad_left(dec(a.memory_mb as u64).as_str(), 6).as_str()).concat("MB ")
        .concat(pad_left(a.cpu.fixed(1).as_str(), 4).as_str()).concat("cpu  ")
        .concat(a.local_url.as_str()).concat("  ").concat(or_text(&a.url, "-").as_str())
}

/// A table of apps.
pub open spec fn apps_lines(list: Seq<AppInfoView>) -> Seq<Seq<char>> {
    if list.len() == 0 {
        seq!["no apps deployed; `hades init` then `hades deploy` to get one running"@]
    } else {
        seq![
            padded_right("NAME"@, 14) + " "@ + padded_right("DEVICE"@, 8) + " "@
                + padded_right("STATE"@, 10) + " "@ + padded_right("REPL"@, 5) + " "@
                + padded_left("MEM"@, 8) + " "@ + padded_left("CPU"@, 7) + "  LOCAL  PUBLIC"@,
        ] + app_rows(list)
    }
}

pub fn apps(list: &Vec<AppInfo>) -> (r: Vec<String>)
    ensures
        split::views(r@) == apps_lines(types::app_info_views(list@)),
{
    let mut page = blank_page();
    if list.len() == 0 {
        put(
            &mut page,
            "no apps deployed; `hades init` then `hades deploy` to get one running".to_owned(),
        );
        assert(split::views(page@) =~= apps_lines(types::app_info_views(list@)));
        return page;
    }
    put(
        &mut page,
        pad_right("NAME", 14).concat(" ").concat(pad_right("DEVICE", 8).as_str()).concat(" ")
            .concat(pad_right("STATE", 10).as_str()).concat(" ")
            .concat(pad_right("REPL", 5).as_str()).concat(" ").concat(pad_left("MEM", 8).as_str())
            .concat(" ").concat(pad_left("CPU", 7).as_str()).concat("  LOCAL  PUBLIC"),
    );
    let ghost head = split::views(page@);
    put_all(&mut page, app_lines_of(list));
    assert(split::views(page@) =~= apps_lines(types::app_info_views(list@)));
    page
}

/// The answer to a deploy.
pub open spec fn deploy_lines(resp: DeployResponseView) -> Seq<Seq<char>> {
    seq![
        resp.app.name + " deployed"@ + (if resp.replaced {
            " (replaced running version)"@
        } else {
            ""@
        }),
        "  local:  "@ + resp.app.local_url,
        match resp.app.url {
            Some(url) => "  public: "@ + url,
            None => match resp.tunnel_note {
                Some(note) => "  public: (none); "@ + note,
                None => "  public: provisioning… run `hades url "@ + resp.app.name
                    + "` in a few seconds"@,
            },
        },
    ]
}

pub fn deploy(resp: &DeployResponse) -> (r: Vec<String>)
    ensures
        split::views(r@) == deploy_lines(resp@),
{
    let a = &resp.app;
    let replaced = if resp.replaced {
        " (replaced running version)"
    } else {
        ""
    };
    let mut page = blank_page();
    put(&mut page, a.name.clone().concat(" deployed").concat(replaced));
    put(&mut page, "  local:  ".to_owned().concat(a.local_url.as_str()));
    match &a.url {
        Some(url) => put(&mut page, "  public: ".to_owned().concat(url.as_str())),
        None => match &resp.tunnel_note {
            Some(note) => put(&mut page, "  public: (none); ".to_owned().concat(note.as_str())),
            None => put(
                &mut page,
                "  public: provisioning… run `hades url ".to_owned().concat(
                    a.name.as_str(),
                ).concat("` in a few seconds"),
            ),
        },
    }
    assert(split::views(page@) =~= deploy_lines(resp@));
    page
}

// -------------------------------------------------------------------------------- host

pub open spec fn color_of(green: bool) -> Seq<char> {
    if green {
        "GREEN"@
    } else {
        "RED"@
    }
}

pub fn color(green: bool) -> (r: &'static str)
    ensures
        r@ == color_of(green),
{
    if green {
        "GREEN"
    } else {
        "RED"
    }
}

/// Where the power comes from, the charge and the health of the battery.
pub open spec fn power_line(
    on_ac: bool,
    battery: Option<Double>,
    health: Option<Double>,
) -> Seq<char> {
    "power:    "@ + (if on_ac {
        "AC power"@
    } else {
        "ON BATTERY"@
    }) + (match battery {
        Some(p) => ", battery "@ + double::fixed_text(p, 0) + "%"@,
        None => ""@,
    }) + (match health {
        Some(p) => " (health "@ + double::fixed_text(p, 0) + "% of design)"@,
        None => ""@,
    })
}

fn power_text(on_ac: bool, battery: Option<Double>, health: Option<Double>) -> (r: String)
    ensures
        r@ == power_line(on_ac, battery, health),
{
    let power = if on_ac {
        "AC power"
    } else {
        "ON BATTERY"
    };
    let batt = match battery {
        Some(p) => ", battery ".to_owned().concat(p.fixed(0).as_str()).concat("%"),
        None => "".to_owned(),
    };
    let cond = match health {
        Some(p) => " (health ".to_owned().concat(p.fixed(0).as_str()).concat("% of design)"),
        None => "".to_owned(),
    };
    "power:    ".to_owned().concat(power).concat(batt.as_str()).concat(cond.as_str())
}

/// One-screen host truth: capacity against allocations, power, availability, apps.
pub open spec fn host_lines(s: HostStatusView) -> Seq<Seq<char>> {
    let head = seq![
        "hadesd v"@ + s.daemon_version + ", up since "@
            + time::time_text(s.started_at, "%Y-%m-%d %H:%M UTC"@) + ", doctor "@
            + color_of(s.doctor_green),
        "capacity: Docker VM "@ + text::decimal(s.ledger.vm_memory_mb as nat) + "MB / "@
            + text::decimal(s.ledger.vm_cpus as nat) + " CPUs (Mac has "@
            + text::decimal(s.ledger.mac_memory_mb as nat) + "MB; the VM is the real budget)"@,
        "memory:   "@ + text::decimal(s.ledger.allocated_mb as nat) + "MB allocated of "@
            + text::decimal(s.ledger.allocatable_mb as nat) + "MB allocatable ("@
            + text::decimal(s.ledger.reserved_mb as nat) + "MB reserved, "@
            + text::decimal(s.ledger.reserve_pct as nat) + "%)"@,
        power_line(s.power.on_ac, s.power.battery_pct, s.power.capacity_pct_of_design),
    ];
    let up = match s.availability_pct_7d {
        Some(av) => head.push(
            "uptime:   "@ + double::fixed_text(av, 2) + "% availability over the last 7 days"@,
        ),
        None => head,
    };
    up.push(""@) + apps_lines(s.apps)
}

pub fn host_status(s: &HostStatus) -> (r: Vec<String>)
    requires
        s.started_at.valid(),
    ensures
        split::views(r@) == host_lines(s@),
{
    let mut page = blank_page();
    put(
        &mut page,
        "hadesd v".to_owned().concat(s.daemon_version.as_str()).concat(", up since ")
            .concat(format_time(s.started_at, "%Y-%m-%d %H:%M UTC").as_str()).concat(", doctor ")
            .concat(color(s.doctor_green)),
    );
    put(
        &mut page,
        "capacity: Docker VM ".to_owned().concat(dec(s.ledger.vm_memory_mb as u64).as_str())
            .concat("MB / ").concat(dec(s.ledger.vm_cpus as u64).as_str()).concat(" CPUs (Mac has ")
            .concat(dec(s.ledger.mac_memory_mb as u64).as_str())
            .concat("MB; the VM is the real budget)"),
    );
    put(
        &mut page,
        "memory:   ".to_owned().concat(dec(s.ledger.allocated_mb as u64).as_str())
            .concat("MB allocated of ").concat(dec(s.ledger.allocatable_mb as u64).as_str())
            .concat("MB allocatable (").concat(dec(s.ledger.reserved_mb as u64).as_str())
            .concat("MB reserved, ").concat(dec(s.ledger.reserve_pct as u64).as_str()).concat("%)"),
    );
    put(
        &mut page,
        power_text(s.power.on_ac, s.power.battery_pct, s.power.capacity_pct_of_design),
    );
    assert(split::views(page@) =~= seq![
        "hadesd v"@ + s@.daemon_version + ", up since "@
            + time::time_text(s@.started_at, "%Y-%m-%d %H:%M UTC"@) + ", doctor "@
            + color_of(s@.doctor_green),
        "capacity: Docker VM "@ + text::decimal(s@.ledger.vm_memory_mb as nat) + "MB / "@
            + text::decimal(s@.ledger.vm_cpus as nat) + " CPUs (Mac has "@
            + text::decimal(s@.ledger.mac_memory_mb as nat) + "MB; the VM is the real budget)"@,
        "memory:   "@ + text::decimal(s@.ledger.allocated_mb as nat) + "MB allocated of "@
            + text::decimal(s@.ledger.allocatable_mb as nat) + "MB allocatable ("@
            + text::decimal(s@.ledger.reserved_mb as nat) + "MB reserved, "@
            + text::decimal(s@.ledger.reserve_pct as nat) + "%)"@,
        power_line(s@.power.on_ac, s@.power.battery_pct, s@.power.capacity_pct_of_design),
    ]);
    match s.availability_pct_7d {
        Some(av) => put(
            &mut page,
            "uptime:   ".to_owned().concat(av.fixed(2).as_str()).concat(
                "% availability over the last 7 days",
            ),
        ),
        None => {},
    }
    put(&mut page, "".to_owned());
    put_all(&mut page, apps(&s.apps));
    page
}

/// The diagnosis of the battery.
pub open spec fn battery_lines(b: BatteryReportView) -> Seq<Seq<char>> {
    let p0 = seq![
        "battery report: "@ + text::decimal(b.sample_count as nat) + " samples over "@
            + double::fixed_text(b.sampled_over_days, 1) + " days"@,
    ];
    let p1 = match b.cycle_count {
        Some(c) => p0.push("  cycles:        "@ + text::decimal(c as nat)),
        None => p0,
    };
    let p2 = match b.capacity_pct_of_design {
        Some(p) => p1.push("  capacity:      "@ + double::fixed_text(p, 1) + "% of design"@),
        None => p1,
    };
    let p3 = match b.capacity_trend_pct {
        Some(x) => p2.push(
            "  trend:         "@ + signed_text(x, 2) + " pct-points over the window"@,
        ),
        None => p2,
    };
    let p4 = match b.cycles_per_week {
        Some(c) => p3.push("  cycle burn:    "@ + double::fixed_text(c, 1) + "/week"@),
        None => p3,
    };
    let p5 = match b.high_soc_dwell_pct {
        Some(d) => p4.push(
            "  high-SoC dwell: "@ + double::fixed_text(d, 0)
                + "% of plugged-in time at >=95% charge"@,
        ),
        None => p4,
    };
    let p6 = match b.avg_temp_c {
        Some(x) => p5.push("  avg temp:      "@ + double::fixed_text(x, 1) + "°C"@),
        None => p5,
    };
    let p7 = match b.hades_cpu_share_pct {
        Some(x) => p6.push(
            "  hades load:    "@ + double::fixed_text(x, 0) + "% avg container CPU during window"@,
        ),
        None => p6,
    };
    p7.push(""@) + Seq::new(b.recommendations.len(), |i: int| "  • "@ + b.recommendations[i])
}

fn bullets(v: &Vec<String>) -> (r: Vec<String>)
    ensures
        split::views(r@) == Seq::new(v@.len(), |i: int| "  • "@ + v@[i]@),
{
    let mut page = blank_page();
    let mut i: usize = 0;
    while i < v.len()
        invariant
            i <= v.len(),
            split::views(page@) =~= Seq::new(i as nat, |j: int| "  • "@ + v@[j]@),
        decreases v.len() - i,
    {
        put(&mut page, "  • ".to_owned().concat(v[i].as_str()));
        i += 1;
    }
    page
}

pub fn battery(b: &BatteryReport) -> (r: Vec<String>)
    ensures
        split::views(r@) == battery_lines(b@),
{
    let mut page = blank_page();
    put(
        &mut page,
        "battery report: ".to_owned().concat(dec(b.sample_count as u64).as_str())
            .concat(" samples over ").concat(b.sampled_over_days.fixed(1).as_str()).concat(" days"),
    );
    match b.cycle_count {
        Some(c) => put(&mut page, "  cycles:        ".to_owned().concat(dec(c as u64).as_str())),
        None => {},
    }
    match b.capacity_pct_of_design {
        Some(p) => put(
            &mut page,
            "  capacity:      ".to_owned().concat(p.fixed(1).as_str()).concat("% of design"),
        ),
        None => {},
    }
    match b.capacity_trend_pct {
        Some(x) => put(
            &mut page,
            "  trend:         ".to_owned().concat(signed(x, 2).as_str())
                .concat(" pct-points over the window"),
        ),
        None => {},
    }
    match b.cycles_per_week {
        Some(c) => put(
            &mut page,
            "  cycle burn:    ".to_owned().concat(c.fixed(1).as_str()).concat("/week"),
        ),
        None => {},
    }
    match b.high_soc_dwell_pct {
        Some(d) => put(
            &mut page,
            "  high-SoC dwell: ".to_owned().concat(d.fixed(0).as_str())
                .concat("% of plugged-in time at >=95% charge"),
        ),
        None => {},
    }
    match b.avg_temp_c {
        Some(x) => put(
            &mut page,
            "  avg temp:      ".to_owned().concat(x.fixed(1).as_str()).concat("°C"),
        ),
        None => {},
    }
    match b.hades_cpu_share_pct {
        Some(x) => put(
            &mut page,
            "  hades load:    ".to_owned().concat(x.fixed(0).as_str())
                .concat("% avg container CPU during window"),
        ),
        None => {},
    }
    put(&mut page, "".to_owned());
    put_all(&mut page, bullets(&b.recommendations));
    assert(Seq::new(b.recommendations@.len(), |i: int| "  • "@ + b.recommendations@[i]@) =~= Seq::new(
        b@.recommendations.len(),
        |i: int| "  • "@ + b@.recommendations[i],
    ));
    assert(split::views(page@) =~= battery_lines(b@));
    page
}

pub open spec fn window_line_text(w: DowntimeWindow) -> Seq<char> {
    padded_right(time::time_text(w.start, "%Y-%m-%d %H:%M:%S"@), 22) + " "@
        + padded_right(time::time_text(w.end, "%Y-%m-%d %H:%M:%S"@), 22) + " "@
        + padded_left(events::duration_text(w.secs as nat), 9) + "  "@ + w.cause.name()
}

fn window_lines_of(v: &Vec<DowntimeWindow>) -> (r: Vec<String>)
    requires
        forall|i: int|
            0 <= i < v@.len() ==> (#[trigger] v@[i]).start.valid() && v@[i].end.valid(),
    ensures
        split::views(r@) == window_rows(v@),
{
    let ghost vv = v@;
    let mut page = blank_page();
    let mut i: usize = 0;
    while i < v.len()
        invariant
            i <= v.len(),
            vv == v@,
            forall|i: int|
                0 <= i < v@.len() ==> (#[trigger] v@[i]).start.valid() && v@[i].end.valid(),
            split::views(page@) =~= Seq::new(i as nat, |j: int| window_line_text(vv[j])),
        decreases v.len() - i,
    {
        let w = &v[i];
        assert(vv[i as int] == w);
        put(
            &mut page,
            pad_right(format_time(w.start, "%Y-%m-%d %H:%M:%S").as_str(), 22).concat(" ")
                .concat(pad_right(format_time(w.end, "%Y-%m-%d %H:%M:%S").as_str(), 22).as_str())
                .concat(" ").concat(pad_left(humanize_secs(w.secs).as_str(), 9).as_str())
                .concat("  ").concat(w.cause.as_str()),
        );
        i += 1;
    }
    assert(split::views(page@) =~= window_rows(vv));
    page
}

pub open spec fn window_rows(v: Seq<DowntimeWindow>) -> Seq<Seq<char>> {
    Seq::new(v.len(), |j: int| window_line_text(v[j]))
}

/// The downtime ledger.
pub open spec fn uptime_lines(u: UptimeReportView) -> Seq<Seq<char>> {
    let head = seq![
        "availability "@ + double::fixed_text(u.availability_pct, 2) + "% since "@
            + time::time_text(u.since, "%Y-%m-%d %H:%M UTC"@),
    ];
    if u.windows.len() == 0 {
        head.push("no downtime windows recorded"@)
    } else {
        head.push(
            padded_right("START"@, 22) + " "@ + padded_right("END"@, 22) + " "@
                + padded_left("DURATION"@, 9) + "  CAUSE"@,
        )
            + window_rows(u.windows)
    }
}

pub fn uptime(u: &UptimeReport) -> (r: Vec<String>)
    requires
        u.since.valid(),
        forall|i: int|
            0 <= i < u.windows@.len() ==> (#[trigger] u.windows@[i]).start.valid()
                && u.windows@[i].end.valid(),
    ensures
        split::views(r@) == uptime_lines(u@),
{
    let mut page = blank_page();
    put(
        &mut page,
        "availability ".to_owned().concat(u.availability_pct.fixed(2).as_str()).concat("% since ")
            .concat(format_time(u.since, "%Y-%m-%d %H:%M UTC").as_str()),
    );
    if u.windows.len() == 0 {
        put(&mut page, "no downtime windows recorded".to_owned());
        assert(split::views(page@) =~= uptime_lines(u@));
        return page;
    }
    put(
        &mut page,
        pad_right("START", 22).concat(" ").concat(pad_right("END", 22).as_str()).concat(" ")
            .concat(pad_left("DURATION", 9).as_str()).concat("  CAUSE"),
    );
    put_all(&mut page, window_lines_of(&u.windows));
    assert(split::views(page@) =~= uptime_lines(u@));
    page
}

pub open spec fn kind_name(k: PsKind) -> Seq<char> {
    match k {
        PsKind::Daemon => "daemon"@,
        PsKind::Container => "container"@,
        PsKind::Cloudflared => "cloudflared"@,
    }
}

fn kind_str(k: PsKind) -> (r: &'static str)
    ensures
        r@ == kind_name(k),
{
    match k {
        PsKind::Daemon => "daemon",
        PsKind::Container => "container",
        PsKind::Cloudflared => "cloudflared",
    }
}

pub open spec fn mb_of(x: Option<Double>) -> Seq<char> {
    match x {
        Some(m) => double::fixed_text(m, 0) + "MB"@,
        None => "-"@,
    }
}

fn mb_text(x: Option<Double>) -> (r: String)
    ensures
        r@ == mb_of(x),
{
    match x {
        Some(m) => m.fixed(0).concat("MB"),
        None => "-".to_owned(),
    }
}

pub open spec fn pct_of(x: Option<Double>) -> Seq<char> {
    match x {
        Some(c) => double::fixed_text(c, 1) + "%"@,
        None => "-"@,
    }
}

fn pct_text(x: Option<Double>) -> (r: String)
    ensures
        r@ == pct_of(x),
{
    match x {
        Some(c) => c.fixed(1).concat("%"),
        None => "-".to_owned(),
    }
}

pub open spec fn ps_line_text(e: PsEntryView) -> Seq<char> {
    padded_right(kind_name(e.kind), 12) + " "@ + padded_right(or_else(e.app, "-"@), 14) + " "@
        + padded_right(e.id, 14) + " "@ + padded_left(mb_of(e.rss_mb), 8) + "  "@
        + padded_left(pct_of(e.cpu_pct), 6) + "  "@ + e.detail + " ["@ + e.state + "]"@
}

fn ps_lines_of(v: &Vec<PsEntry>) -> (r: Vec<String>)
    ensures
        split::views(r@) == ps_rows(types::ps_entry_views(v@)),
{
    let ghost vv = types::ps_entry_views(v@);
    let mut page = blank_page();
    let mut i: usize = 0;
    while i < v.len()
        invariant
            i <= v.len(),
            vv == types::ps_entry_views(v@),
            split::views(page@) =~= Seq::new(i as nat, |j: int| ps_line_text(vv[j])),
        decreases v.len() - i,
    {
        let e = &v[i];
        assert(vv[i as int] == e@);
        put(
            &mut page,
            pad_right(kind_str(e.kind), 12).concat(" ")
                .concat(pad_right(or_text(&e.app, "-").as_str(), 14).as_str()).concat(" ")
                .concat(pad_right(e.id.as_str(), 14).as_str()).concat(" ")
                .concat(pad_left(mb_text(e.rss_mb).as_str(), 8).as_str()).concat("  ")
                .concat(pad_left(pct_text(e.cpu_pct).as_str(), 6).as_str()).concat("  ")
                .concat(e.detail.as_str()).concat(" [").concat(e.state.as_str()).concat("]"),
        );
        i += 1;
    }
    assert(split::views(page@) =~= ps_rows(vv));
    page
}

pub open spec fn ps_rows(v: Seq<PsEntryView>) -> Seq<Seq<char>> {
    Seq::new(v.len(), |j: int| ps_line_text(v[j]))
}

/// Everything that runs.
pub open spec fn ps_lines(p: PsReportView) -> Seq<Seq<char>> {
    seq![
        padded_right("KIND"@, 12) + " "@ + padded_right("APP"@, 14) + " "@ + padded_right("ID"@, 14)
            + " "@ + padded_left("RSS"@, 9) + " "@ + padded_left("CPU"@, 7) + "  DETAIL"@,
    ] + ps_rows(p.entries)
}

pub fn ps(p: &PsReport) -> (r: Vec<String>)
    ensures
        split::views(r@) == ps_lines(p@),
{
    let mut page = blank_page();
    put(
        &mut page,
        pad_right("KIND", 12).concat(" ").concat(pad_right("APP", 14).as_str()).concat(" ")
            .concat(pad_right("ID", 14).as_str()).concat(" ").concat(pad_left("RSS", 9).as_str())
            .concat(" ").concat(pad_left("CPU", 7).as_str()).concat("  DETAIL"),
    );
    put_all(&mut page, ps_lines_of(&p.entries));
    assert(split::views(page@) =~= ps_lines(p@));
    page
}

// ------------------------------------------------------------------------------- fleet

pub open spec fn health_of(healthy: bool) -> Seq<char> {
    if healthy {
        "green"@
    } else {
        "red"@
    }
}

fn health_str(healthy: bool) -> (r: &'static str)
    ensures
        r@ == health_of(healthy),
{
    if healthy {
        "green"
    } else {
        "red"
    }
}

/// When a device was last heard of.
pub open spec fn seen_of(last_seen: Option<Timestamp>) -> Seq<char> {
    match last_seen {
        Some(t) => time::time_text(t, "%H:%M:%S"@),
        None => "never"@,
    }
}

fn seen_text(last_seen: Option<Timestamp>) -> (r: String)
    requires
        last_seen matches Some(t) ==> t.valid(),
    ensures
        r@ == seen_of(last_seen),
{
    match last_seen {
        Some(t) => format_time(t, "%H:%M:%S"),
        None => "never".to_owned(),
    }
}

/// Can every time in a list of devices be written?
pub open spec fn seen_at_valid_times(devices: Seq<FleetDeviceView>) -> bool {
    forall|i: int|
        0 <= i < devices.len() ==> ((#[trigger] devices[i]).last_seen matches Some(t)
            ==> t.valid())
}

pub open spec fn device_line(d: FleetDeviceViewView) -> Seq<char> {
    padded_right(d.name, 10) + " "@ + padded_right(health_of(d.healthy), 8) + " "@
        + padded_left(text::decimal(d.free_mb as nat), 5) + "MB   "@
        + padded_left(text::decimal(d.allocatable_mb as nat), 5) + "MB      "@
        + padded_right(text::decimal(d.apps as nat), 6) + " "@ + seen_of(d.last_seen)
}

pub open spec fn device_lines(v: Seq<FleetDeviceViewView>) -> Seq<Seq<char>> {
    Seq::new(v.len(), |j: int| device_line(v[j]))
}

/// The devices that joined the hub, which stands before them.
pub open spec fn joined(devices: Seq<FleetDeviceViewView>) -> Seq<FleetDeviceViewView> {
    if devices.len() == 0 {
        devices
    } else {
        devices.skip(1)
    }
}

fn lines_of_devices(v: &Vec<FleetDeviceView>) -> (r: Vec<String>)
    requires
        seen_at_valid_times(v@),
    ensures
        split::views(r@) == device_lines(joined(types::fleet_device_view_views(v@))),
{
    let ghost vv = joined(types::fleet_device_view_views(v@));
    let mut page = blank_page();
    if v.len() == 0 {
        assert(split::views(page@) =~= device_lines(vv));
        return page;
    }
    let mut i: usize = 1;
    while i < v.len()
        invariant
            1 <= i <= v.len(),
            vv == types::fleet_device_view_views(v@).skip(1),
            seen_at_valid_times(v@),
            split::views(page@) =~= Seq::new((i - 1) as nat, |j: int| device_line(vv[j])),
        decreases v.len() - i,
    {
        let d = &v[i];
        assert(vv[i - 1] == d@);
        put(
            &mut page,
            pad_right(d.name.as_str(), 10).concat(" ")
                .concat(pad_right(health_str(d.healthy), 8).as_str()).concat(" ")
                .concat(pad_left(dec(d.free_mb as u64).as_str(), 5).as_str()).concat("MB   ")
                .concat(pad_left(dec(d.allocatable_mb as u64).as_str(), 5).as_str())
                .concat("MB      ").concat(pad_right(dec(d.apps as u64).as_str(), 6).as_str())
                .concat(" ").concat(seen_text(d.last_seen).as_str()),
        );
        i += 1;
    }
    assert(split::views(page@) =~= device_lines(vv));
    page
}

/// A table of devices.
pub open spec fn fleet_table(devices: Seq<FleetDeviceViewView>) -> Seq<Seq<char>> {
    seq![
        padded_right("DEVICE"@, 10) + " "@ + padded_right("HEALTH"@, 8) + " "@
            + padded_right("FREE"@, 9) + " "@ + padded_right("ALLOCATABLE"@, 12) + " "@
            + padded_right("APPS"@, 6) + " LAST SEEN"@,
    ] + device_lines(devices)
}

pub fn fleet(v: &FleetView) -> (r: Vec<String>)
    requires
        seen_at_valid_times(v.devices@),
    ensures
        split::views(r@) == fleet_table(joined(v@.devices)),
{
    let mut page = blank_page();
    put(
        &mut page,
        pad_right("DEVICE", 10).concat(" ").concat(pad_right("HEALTH", 8).as_str()).concat(" ")
            .concat(pad_right("FREE", 9).as_str()).concat(" ")
            .concat(pad_right("ALLOCATABLE", 12).as_str()).concat(" ")
            .concat(pad_right("APPS", 6).as_str()).concat(" LAST SEEN"),
    );
    put_all(&mut page, lines_of_devices(&v.devices));
    assert(split::views(page@) =~= fleet_table(joined(v@.devices)));
    page
}

/// The devices of the fleet, or how to add the first.
pub open spec fn fleet_page(devices: Seq<FleetDeviceViewView>) -> Seq<Seq<char>> {
    if joined(devices).len() == 0 {
        seq!["no devices joined; `hades fleet add` prints what to run on a new machine"@]
    } else {
        fleet_table(joined(devices))
    }
}

pub fn fleet_lines(v: &FleetView) -> (r: Vec<String>)
    requires
        seen_at_valid_times(v.devices@),
    ensures
        split::views(r@) == fleet_page(v@.devices),
{
    if v.devices.len() <= 1 {
        let mut page = blank_page();
        put(
            &mut page,
            "no devices joined; `hades fleet add` prints what to run on a new machine".to_owned(),
        );
        assert(split::views(page@) =~= fleet_page(v@.devices));
        page
    } else {
        fleet(v)
    }
}

// ------------------------------------------------------------------ stats, secrets, names

pub open spec fn replica_line_text(x: ReplicaStatsView) -> Seq<char> {
    "    "@ + x.container_id + "  "@ + double::fixed_text(x.memory_used_mb, 0) + "MB / "@
        + text::decimal(x.memory_limit_mb as nat) + "MB  cpu "@ + double::fixed_text(x.cpu_pct, 1)
        + "%  ["@ + x.state + "]"@
}

fn replica_lines_of(v: &Vec<ReplicaStats>) -> (r: Vec<String>)
    ensures
        split::views(r@) == replica_rows(types::replica_stats_views(v@)),
{
    let ghost vv = types::replica_stats_views(v@);
    let mut page = blank_page();
    let mut i: usize = 0;
    while i < v.len()
        invariant
            i <= v.len(),
            vv == types::replica_stats_views(v@),
            split::views(page@) =~= Seq::new(i as nat, |j: int| replica_line_text(vv[j])),
        decreases v.len() - i,
    {
        let x = &v[i];
        assert(vv[i as int] == x@);
        put(
            &mut page,
            "    ".to_owned().concat(x.container_id.as_str()).concat("  ")
                .concat(x.memory_used_mb.fixed(0).as_str()).concat("MB / ")
                .concat(dec(x.memory_limit_mb as u64).as_str()).concat("MB  cpu ")
                .concat(x.cpu_pct.fixed(1).as_str()).concat("%  [").concat(x.state.as_str())
                .concat("]"),
        );
        i += 1;
    }
    assert(split::views(page@) =~= replica_rows(vv));
    page
}

pub open spec fn replica_rows(v: Seq<ReplicaStatsView>) -> Seq<Seq<char>> {
    Seq::new(v.len(), |j: int| replica_line_text(v[j]))
}

/// Proxy and replica figures of an app.
pub open spec fn stats_lines(s: AppStatsView) -> Seq<Seq<char>> {
    seq![
        s.name + ": proxy traffic"@,
        "  requests "@ + text::decimal(s.requests_total as nat) + "  inflight "@
            + text::decimal(s.inflight as nat) + "  shed "@ + text::decimal(s.shed_total as nat)
            + "  p50 "@ + double::fixed_text(s.p50_ms, 1) + "ms  p95 "@
            + double::fixed_text(s.p95_ms, 1) + "ms"@,
        "  replicas:"@,
    ] + replica_rows(s.replicas)
}

pub fn stats(s: &AppStats) -> (r: Vec<String>)
    ensures
        split::views(r@) == stats_lines(s@),
{
    let mut page = blank_page();
    put(&mut page, s.name.clone().concat(": proxy traffic"));
    put(
        &mut page,
        "  requests ".to_owned().concat(dec(s.requests_total as u64).as_str()).concat("  inflight ")
            .concat(dec(s.inflight as u64).as_str()).concat("  shed ")
            .concat(dec(s.shed_total as u64).as_str()).concat("  p50 ")
            .concat(s.p50_ms.fixed(1).as_str()).concat("ms  p95 ")
            .concat(s.p95_ms.fixed(1).as_str()).concat("ms"),
    );
    put(&mut page, "  replicas:".to_owned());
    put_all(&mut page, replica_lines_of(&s.replicas));
    assert(split::views(page@) =~= stats_lines(s@));
    page
}

/// An app's secrets: their names only.
pub open spec fn secrets_lines(v: SecretsViewView) -> Seq<Seq<char>> {
    seq![
        v.app + " · "@ + text::decimal(v.keys.len() as nat) + " secret"@
            + (if v.keys.len() == 1 { ""@ } else { "s"@ }) + " on "@ + or_else(v.device, "local"@)
            + " ("@ + (if v.encrypted { "keychain-encrypted"@ } else { "file permissions only"@ })
            + ")"@ + (if v.applied { " · running replicas restarted"@ } else { ""@ }),
    ] + Seq::new(v.keys.len(), |i: int| "  "@ + v.keys[i])
}

fn indented(v: &Vec<String>) -> (r: Vec<String>)
    ensures
        split::views(r@) == Seq::new(v@.len(), |i: int| "  "@ + v@[i]@),
{
    let mut page = blank_page();
    let mut i: usize = 0;
    while i < v.len()
        invariant
            i <= v.len(),
            split::views(page@) =~= Seq::new(i as nat, |j: int| "  "@ + v@[j]@),
        decreases v.len() - i,
    {
        put(&mut page, "  ".to_owned().concat(v[i].as_str()));
        i += 1;
    }
    page
}

pub fn render_secrets(v: &SecretsView) -> (r: Vec<String>)
    ensures
        split::views(r@) == secrets_lines(v@),
{
    let plural = if v.keys.len() == 1 {
        ""
    } else {
        "s"
    };
    let kept = if v.encrypted {
        "keychain-encrypted"
    } else {
        "file permissions only"
    };
    let applied = if v.applied {
        " · running replicas restarted"
    } else {
        ""
    };
    let mut page = blank_page();
    put(
        &mut page,
        v.app.clone().concat(" · ").concat(dec(v.keys.len() as u64).as_str()).concat(" secret")
            .concat(plural).concat(" on ").concat(or_text(&v.device, "local").as_str()).concat(" (")
            .concat(kept).concat(")").concat(applied),
    );
    put_all(&mut page, indented(&v.keys));
    assert(v@.keys.len() == v.keys@.len());
    assert(Seq::new(v.keys@.len(), |i: int| "  "@ + v.keys@[i]@) =~= Seq::new(
        v@.keys.len(),
        |i: int| "  "@ + v@.keys[i],
    ));
    assert(split::views(page@) =~= secrets_lines(v@));
    page
}

pub open spec fn claim_line_text(c: DomainClaimView) -> Seq<char> {
    padded_right(c.app, 16) + " https://"@ + c.hostname
}

fn claim_lines_of(v: &Vec<DomainClaim>) -> (r: Vec<String>)
    ensures
        split::views(r@) == claim_rows(types::domain_claim_views(v@)),
{
    let ghost vv = types::domain_claim_views(v@);
    let mut page = blank_page();
    let mut i: usize = 0;
    while i < v.len()
        invariant
            i <= v.len(),
            vv == types::domain_claim_views(v@),
            split::views(page@) =~= Seq::new(i as nat, |j: int| claim_line_text(vv[j])),
        decreases v.len() - i,
    {
        let c = &v[i];
        assert(vv[i as int] == c@);
        put(
            &mut page,
            pad_right(c.app.as_str(), 16).concat(" https://").concat(c.hostname.as_str()),
        );
        i += 1;
    }
    assert(split::views(page@) =~= claim_rows(vv));
    page
}

pub open spec fn claim_rows(v: Seq<DomainClaimView>) -> Seq<Seq<char>> {
    Seq::new(v.len(), |j: int| claim_line_text(v[j]))
}

/// The names that apps hold.
pub open spec fn claims_lines(list: DomainClaimListView) -> Seq<Seq<char>> {
    if list.claims.len() == 0 {
        seq!["no claimed domains; `hades domain claim <name>`"@]
    } else {
        claim_rows(list.claims)
    }
}

pub fn claims(list: &DomainClaimList) -> (r: Vec<String>)
    ensures
        split::views(r@) == claims_lines(list@),
{
    if list.claims.len() == 0 {
        let mut page = blank_page();
        put(&mut page, "no claimed domains; `hades domain claim <name>`".to_owned());
        assert(split::views(page@) =~= claims_lines(list@));
        return page;
    }
    claim_lines_of(&list.claims)
}

// ---------------------------------------------------------------------------- bootstrap

pub open spec fn step_line_text(x: InitStepView) -> Seq<char> {
    mark_of(x.ok, false) + " "@ + padded_right(x.name, 12) + " "@ + x.detail
}

fn step_lines_of(v: &Vec<InitStep>) -> (r: Vec<String>)
    ensures
        split::views(r@) == step_rows(init::init_step_views(v@)),
{
    let ghost vv = init::init_step_views(v@);
    let mut page = blank_page();
    let mut i: usize = 0;
    while i < v.len()
        invariant
            i <= v.len(),
            vv == init::init_step_views(v@),
            split::views(page@) =~= Seq::new(i as nat, |j: int| step_line_text(vv[j])),
        decreases v.len() - i,
    {
        let x = &v[i];
        assert(vv[i as int] == x@);
        put(
            &mut page,
            mark(x.ok, false).to_owned().concat(" ").concat(pad_right(x.name.as_str(), 12).as_str())
                .concat(" ").concat(x.detail.as_str()),
        );
        i += 1;
    }
    assert(split::views(page@) =~= step_rows(vv));
    page
}

pub open spec fn step_rows(v: Seq<InitStepView>) -> Seq<Seq<char>> {
    Seq::new(v.len(), |j: int| step_line_text(v[j]))
}

/// How the bootstrap of a host went.
pub open spec fn init_lines(report: InitReportView) -> Seq<Seq<char>> {
    let steps = step_rows(report.steps);
    let told = match report.ntfy_subscribe_url {
        Some(url) => steps.push(""@).push(
            "\u{1F4F1} subscribe your phone to host alerts: "@ + url,
        ).push("   (install the ntfy app, subscribe to that topic, no account needed)"@),
        None => steps,
    };
    told.push(""@) + doctor_lines(report.doctor)
}

pub fn init(report: &InitReport) -> (r: Vec<String>)
    ensures
        split::views(r@) == init_lines(report@),
{
    let mut page = step_lines_of(&report.steps);
    match &report.ntfy_subscribe_url {
        Some(url) => {
            put(&mut page, "".to_owned());
            put(
                &mut page,
                "\u{1F4F1} subscribe your phone to host alerts: ".to_owned().concat(url.as_str()),
            );
            put(
                &mut page,
                "   (install the ntfy app, subscribe to that topic, no account needed)".to_owned(),
            );
        },
        None => {},
    }
    put(&mut page, "".to_owned());
    put_all(&mut page, doctor(&report.doctor));
    page
}

/// An event on one line.
pub fn event_line(at: Timestamp, summary: &str) -> (r: String)
    requires
        at.valid(),
    ensures
        r@ == time::time_text(at, "%Y-%m-%d %H:%M:%S"@) + "  "@ + summary@,
{
    format_time(at, "%Y-%m-%d %H:%M:%S").concat("  ").concat(summary)
}

// ---------------------------------------------------------------------------- laws

/// Columns line up: a text that fits its column takes exactly its width, and the text
/// itself stands at its edge.
pub proof fn columns_line_up(s: Seq<char>, width: nat)
    requires
        s.len() <= width,
    ensures
        padded_right(s, width).len() == width,
        padded_left(s, width).len() == width,
        padded_right(s, width).take(s.len() as int) == s,
        padded_left(s, width).skip(width - s.len()) == s,
{
    assert(padded_right(s, width).take(s.len() as int) =~= s);
    assert(padded_left(s, width).skip(width - s.len()) =~= s);
}

/// Does a line begin with this text?
pub open spec fn opens_with(line: Seq<char>, part: Seq<char>) -> bool {
    part.len() <= line.len() && line.take(part.len() as int) == part
}

/// Does a line end with this text?
pub open spec fn closes_with(line: Seq<char>, part: Seq<char>) -> bool {
    part.len() <= line.len() && line.skip(line.len() - part.len()) == part
}

/// Does this text stand somewhere in a line?
pub open spec fn tells(line: Seq<char>, part: Seq<char>) -> bool {
    exists|k: int|
        0 <= k <= line.len() - part.len() && #[trigger] line.subrange(k, k + part.len()) == part
}

proof fn lemma_parts(a: Seq<char>, part: Seq<char>, b: Seq<char>)
    ensures
        opens_with(part + b, part),
        closes_with(a + part, part),
        tells(a + part + b, part),
{
    assert((part + b).take(part.len() as int) =~= part);
    assert((a + part).skip(a.len() as int) =~= part);
    let line = a + part + b;
    let k = a.len() as int;
    assert(line.subrange(k, k + part.len()) =~= part);
}

/// Every app has a line of its own, in the order of the list: it begins with the app's name,
/// tells how many of its replicas run, and ends with where the app is reached.
pub proof fn every_app_has_its_line(list: Seq<AppInfoView>, i: int)
    requires
        0 <= i < list.len(),
    ensures
        apps_lines(list).len() == list.len() + 1,
        ({
            let line = apps_lines(list)[i + 1];
            let a = list[i];
            &&& opens_with(line, a.name)
            &&& tells(
                line,
                text::decimal(a.replicas_running as nat) + "/"@ + text::decimal(
                    a.replicas_desired as nat,
                ),
            )
            &&& tells(line, text::decimal(a.memory_mb as nat) + "MB "@)
            &&& tells(
                line,
                match a.device {
                    Some(d) => d,
                    None => "local"@,
                },
            )
            &&& closes_with(
                line,
                a.local_url + "  "@ + match a.url {
                    Some(u) => u,
                    None => "-"@,
                },
            )
        }),
{
    let a = list[i];
    assert(apps_lines(list)[i + 1] == app_line_text(a));
    lemma_app_edges(a);
    lemma_app_device(a);
    lemma_app_figures(a);
}

/// The edges of an app's line.
#[verifier::rlimit(60)]
proof fn lemma_app_edges(a: AppInfoView)
    ensures
        opens_with(app_line_text(a), a.name),
        closes_with(app_line_text(a), a.local_url + "  "@ + or_else(a.url, "-"@)),
{
    let line = app_line_text(a);
    let end = a.local_url + "  "@ + or_else(a.url, "-"@);
    assert(opens_with(line, a.name)) by {
        assert(line.take(a.name.len() as int) =~= a.name);
    }
    assert(line.skip(line.len() - end.len()) =~= end);
}

/// The device in an app's line.
#[verifier::rlimit(60)]
proof fn lemma_app_device(a: AppInfoView)
    ensures
        tells(app_line_text(a), or_else(a.device, "local"@)),
{
    let line = app_line_text(a);
    let device = or_else(a.device, "local"@);
    let k = (padded_right(a.name, 14).len() + " "@.len()) as int;
    assert(line.subrange(k, k + device.len()) =~= device);
}

/// The figures in an app's line.
#[verifier::rlimit(60)]
proof fn lemma_app_figures(a: AppInfoView)
    ensures
        tells(
            app_line_text(a),
            text::decimal(a.replicas_running as nat) + "/"@ + text::decimal(
                a.replicas_desired as nat,
            ),
        ),
        tells(app_line_text(a), text::decimal(a.memory_mb as nat) + "MB "@),
{
    let line = app_line_text(a);
    let (run, want) = (
        text::decimal(a.replicas_running as nat),
        text::decimal(a.replicas_desired as nat),
    );
    let mem = text::decimal(a.memory_mb as nat);
    let c = padded_right(a.name, 14) + " "@ + padded_right(or_else(a.device, "local"@), 8) + " "@
        + padded_right(a.state.name(), 10) + " "@;
    let part = run + "/"@ + want;
    let k = c.len() + padded_left(run, 2).len() - run.len();
    assert(line.subrange(k, k + part.len()) =~= part);
    let whole = mem + "MB "@;
    let m = c.len() + padded_left(run, 2).len() + "/"@.len() + padded_right(want, 2).len()
        + " "@.len() + padded_left(mem, 6).len() - mem.len();
    assert(line.subrange(m, m + whole.len()) =~= whole);
}

/// Every name that an app holds has a line of its own, with the app before it.
pub proof fn every_claim_has_its_line(list: DomainClaimListView, i: int)
    requires
        0 <= i < list.claims.len(),
    ensures
        claims_lines(list).len() == list.claims.len(),
        opens_with(claims_lines(list)[i], list.claims[i].app),
        closes_with(claims_lines(list)[i], " https://"@ + list.claims[i].hostname),
{
    let line = claims_lines(list)[i];
    let c = list.claims[i];
    let t = line.skip(c.app.len() as int);
    assert(line =~= c.app + t);
    lemma_parts(Seq::empty(), c.app, t);
    assert(line =~= padded_right(c.app, 16) + (" https://"@ + c.hostname));
    lemma_parts(padded_right(c.app, 16), " https://"@ + c.hostname, Seq::empty());
}

/// The names of the secrets are listed, each on a line of its own, below the app's.
pub proof fn every_secret_has_its_line(v: SecretsViewView, i: int)
    requires
        0 <= i < v.keys.len(),
    ensures
        secrets_lines(v).len() == v.keys.len() + 1,
        opens_with(secrets_lines(v)[0], v.app),
        secrets_lines(v)[i + 1] == "  "@ + v.keys[i],
{
    let line = secrets_lines(v)[0];
    let t = line.skip(v.app.len() as int);
    assert(line =~= v.app + t);
    lemma_parts(Seq::empty(), v.app, t);
}

/// Every device that joined has a line of its own; the hub, which comes first, has none. It
/// begins with the device's name, tells its health and its memory, and ends with when it was
/// last heard of.
pub proof fn every_joined_device_has_its_line(devices: Seq<FleetDeviceViewView>, i: int)
    requires
        1 <= i < devices.len(),
    ensures
        fleet_page(devices).len() == devices.len(),
        ({
            let line = fleet_page(devices)[i];
            let d = devices[i];
            &&& opens_with(line, d.name)
            &&& tells(
                line,
                if d.healthy {
                    "green"@
                } else {
                    "red"@
                },
            )
            &&& tells(line, text::decimal(d.free_mb as nat) + "MB   "@)
            &&& tells(line, text::decimal(d.allocatable_mb as nat) + "MB      "@)
            &&& closes_with(
                line,
                match d.last_seen {
                    Some(t) => time::time_text(t, "%H:%M:%S"@),
                    None => "never"@,
                },
            )
        }),
{
    let d = devices[i];
    assert(joined(devices)[i - 1] == d);
    assert(fleet_page(devices)[i] == device_line(d));
    lemma_device_edges(d);
    lemma_device_figures(d);
}

/// The edges of a device's line, and its health.
#[verifier::rlimit(60)]
proof fn lemma_device_edges(d: FleetDeviceViewView)
    ensures
        opens_with(device_line(d), d.name),
        tells(device_line(d), health_of(d.healthy)),
        closes_with(device_line(d), seen_of(d.last_seen)),
{
    let line = device_line(d);
    let health = health_of(d.healthy);
    let seen = seen_of(d.last_seen);
    assert(opens_with(line, d.name)) by {
        assert(line.take(d.name.len() as int) =~= d.name);
    }
    let k = (padded_right(d.name, 10).len() + " "@.len()) as int;
    assert(tells(line, health)) by {
        assert(line.subrange(k, k + health.len()) =~= health);
    }
    assert(line.skip(line.len() - seen.len()) =~= seen);
}

/// The memory in a device's line.
#[verifier::rlimit(60)]
proof fn lemma_device_figures(d: FleetDeviceViewView)
    ensures
        tells(device_line(d), text::decimal(d.free_mb as nat) + "MB   "@),
        tells(device_line(d), text::decimal(d.allocatable_mb as nat) + "MB      "@),
{
    let line = device_line(d);
    let (free, all) = (text::decimal(d.free_mb as nat), text::decimal(d.allocatable_mb as nat));
    let c = padded_right(d.name, 10) + " "@ + padded_right(health_of(d.healthy), 8) + " "@;
    let part = free + "MB   "@;
    let k = c.len() + padded_left(free, 5).len() - free.len();
    assert(line.subrange(k, k + part.len()) =~= part);
    let whole = all + "MB      "@;
    let m = c.len() + padded_left(free, 5).len() + "MB   "@.len() + padded_left(all, 5).len()
        - all.len();
    assert(line.subrange(m, m + whole.len()) =~= whole);
}

/// Everything that runs has a line of its own: what it is, whose it is, its number, and what
/// it does.
pub proof fn everything_that_runs_has_its_line(p: PsReportView, i: int)
    requires
        0 <= i < p.entries.len(),
    ensures
        ps_lines(p).len() == p.entries.len() + 1,
        ({
            let line = ps_lines(p)[i + 1];
            let e = p.entries[i];
            &&& opens_with(
                line,
                match e.kind {
                    PsKind::Daemon => "daemon"@,
                    PsKind::Container => "container"@,
                    PsKind::Cloudflared => "cloudflared"@,
                },
            )
            &&& tells(
                line,
                match e.app {
                    Some(a) => a,
                    None => "-"@,
                },
            )
            &&& tells(line, e.id)
            &&& closes_with(line, "  "@ + e.detail + " ["@ + e.state + "]"@)
        }),
{
    let e = p.entries[i];
    assert(ps_lines(p)[i + 1] == ps_line_text(e));
    lemma_entry_edges(e);
    lemma_entry_owner(e);
}

/// The edges of the line of something that runs.
#[verifier::rlimit(60)]
proof fn lemma_entry_edges(e: PsEntryView)
    ensures
        opens_with(ps_line_text(e), kind_name(e.kind)),
        closes_with(ps_line_text(e), "  "@ + e.detail + " ["@ + e.state + "]"@),
{
    let line = ps_line_text(e);
    let kind = kind_name(e.kind);
    let end = "  "@ + e.detail + " ["@ + e.state + "]"@;
    assert(opens_with(line, kind)) by {
        assert(line.take(kind.len() as int) =~= kind);
    }
    assert(line.skip(line.len() - end.len()) =~= end);
}

/// Whose something that runs is, and its number.
#[verifier::rlimit(60)]
proof fn lemma_entry_owner(e: PsEntryView)
    ensures
        tells(ps_line_text(e), or_else(e.app, "-"@)),
        tells(ps_line_text(e), e.id),
{
    let line = ps_line_text(e);
    let app = or_else(e.app, "-"@);
    let k = (padded_right(kind_name(e.kind), 12).len() + " "@.len()) as int;
    assert(line.subrange(k, k + app.len()) =~= app);
    let m = k + padded_right(app, 14).len() + " "@.len();
    assert(line.subrange(m, m + e.id.len()) =~= e.id);
}

/// Every time that the host was down has a line of its own: from when to when, for how long,
/// and why.
pub proof fn every_downtime_has_its_line(u: UptimeReportView, i: int)
    requires
        0 <= i < u.windows.len(),
    ensures
        uptime_lines(u).len() == u.windows.len() + 2,
        ({
            let line = uptime_lines(u)[i + 2];
            let w = u.windows[i];
            &&& opens_with(line, time::time_text(w.start, "%Y-%m-%d %H:%M:%S"@))
            &&& tells(line, time::time_text(w.end, "%Y-%m-%d %H:%M:%S"@))
            &&& closes_with(line, events::duration_text(w.secs as nat) + "  "@ + w.cause.name())
        }),
{
    let line = uptime_lines(u)[i + 2];
    let w = u.windows[i];
    assert(line == window_line_text(w));
    let (start, end) = (
        time::time_text(w.start, "%Y-%m-%d %H:%M:%S"@),
        time::time_text(w.end, "%Y-%m-%d %H:%M:%S"@),
    );
    let long = events::duration_text(w.secs as nat);
    let c1 = padded_right(start, 22) + " "@;
    let c2 = c1 + padded_right(end, 22) + " "@ + padded_left(long, 9).take(
        padded_left(long, 9).len() - long.len(),
    );
    let last = long + "  "@ + w.cause.name();
    assert(line =~= c2 + last);
    lemma_parts(c2, last, Seq::empty());
    let t0 = line.skip(start.len() as int);
    assert(line =~= start + t0);
    lemma_parts(Seq::empty(), start, t0);
    let t1 = line.skip((c1.len() + end.len()) as int);
    assert(line =~= c1 + end + t1);
    lemma_parts(c1, end, t1);
}

/// Every replica has a line of its own below the figures of its app.
pub proof fn every_replica_has_its_line(s: AppStatsView, i: int)
    requires
        0 <= i < s.replicas.len(),
    ensures
        stats_lines(s).len() == s.replicas.len() + 3,
        opens_with(stats_lines(s)[0], s.name),
        opens_with(stats_lines(s)[i + 3], "    "@ + s.replicas[i].container_id),
        tells(stats_lines(s)[i + 3], text::decimal(s.replicas[i].memory_limit_mb as nat)),
        closes_with(stats_lines(s)[i + 3], "["@ + s.replicas[i].state + "]"@),
{
    let head = stats_lines(s)[0];
    lemma_parts(Seq::empty(), s.name, ": proxy traffic"@);
    let line = stats_lines(s)[i + 3];
    let x = s.replicas[i];
    let limit = text::decimal(x.memory_limit_mb as nat);
    let who = "    "@ + x.container_id;
    let c1 = who + "  "@ + double::fixed_text(x.memory_used_mb, 0) + "MB / "@;
    let c2 = c1 + limit + "MB  cpu "@ + double::fixed_text(x.cpu_pct, 1) + "%  "@;
    let last = "["@ + x.state + "]"@;
    reveal_strlit("%  [");
    reveal_strlit("%  ");
    reveal_strlit("[");
    assert("%  ["@ =~= "%  "@ + "["@);
    assert(line =~= c2 + last);
    lemma_parts(c2, last, Seq::empty());
    let t0 = line.skip(who.len() as int);
    assert(line =~= who + t0);
    lemma_parts(Seq::empty(), who, t0);
    let t1 = line.skip((c1.len() + limit.len()) as int);
    assert(line =~= c1 + limit + t1);
    lemma_parts(c1, limit, t1);
}

/// Every step of the bootstrap has a line of its own: whether it went well, its name, and
/// what came of it. The doctor's page stands at the end.
pub proof fn every_step_has_its_line(report: InitReportView, i: int)
    requires
        0 <= i < report.steps.len(),
    ensures
        ({
            let line = init_lines(report)[i];
            let x = report.steps[i];
            &&& opens_with(
                line,
                (if x.ok {
                    "✓"@
                } else {
                    "✗"@
                }) + " "@ + x.name,
            )
            &&& closes_with(line, " "@ + x.detail)
        }),
        ({
            let page = init_lines(report);
            let end = doctor_lines(report.doctor);
            &&& end.len() <= page.len()
            &&& page.skip(page.len() - end.len()) == end
        }),
{
    let page = init_lines(report);
    let line = page[i];
    let x = report.steps[i];
    assert(line == step_line_text(x));
    let start = mark_of(x.ok, false) + " "@ + x.name;
    let t0 = line.skip(start.len() as int);
    assert(line =~= start + t0);
    lemma_parts(Seq::empty(), start, t0);
    let c1 = mark_of(x.ok, false) + " "@ + padded_right(x.name, 12);
    assert(line =~= c1 + (" "@ + x.detail));
    lemma_parts(c1, " "@ + x.detail, Seq::empty());
    let end = doctor_lines(report.doctor);
    assert(page.skip(page.len() - end.len()) =~= end);
}

/// Every check has a line of its own: whether it went well, its name, and what was found. Below
/// one that failed stands what can be done about it. The last line says whether all is well.
pub proof fn every_check_has_its_line(report: DoctorReportView, i: int)
    requires
        0 <= i < report.checks.len(),
    ensures
        ({
            let page = doctor_lines(report);
            let c = report.checks[i];
            &&& exists|k: int|
                #![trigger page[k]]
                0 <= k < page.len() - 2 && opens_with(
                    page[k],
                    (if c.ok {
                        "✓"@
                    } else if c.warn {
                        "!"@
                    } else {
                        "✗"@
                    }) + " "@ + c.name,
                ) && closes_with(page[k], " "@ + c.detail) && (!c.ok ==> (c.remedy matches Some(r)
                    ==> k + 1 < page.len() - 2 && closes_with(page[k + 1], r)))
            &&& page.len() >= report.checks.len() + 2
            &&& page.last() == if report.green {
                "doctor: GREEN, host is ready for deploys"@
            } else {
                "doctor: RED, deploys are refused until the failures above are fixed"@
            }
        }),
{
    let page = doctor_lines(report);
    let c = report.checks[i];
    let k = lemma_check_line(report.checks, i);
    let lines = all_check_lines(report.checks);
    assert(page[k] == lines[k]);
    let line = page[k];
    let start = mark_of(c.ok, c.warn) + " "@ + c.name;
    let t0 = line.skip(start.len() as int);
    assert(line =~= start + t0);
    lemma_parts(Seq::empty(), start, t0);
    let c1 = mark_of(c.ok, c.warn) + " "@ + padded_right(c.name, 12);
    assert(line =~= c1 + (" "@ + c.detail));
    lemma_parts(c1, " "@ + c.detail, Seq::empty());
    if !c.ok && c.remedy is Some {
        assert(page[k + 1] == lines[k + 1]);
        lemma_parts("  "@ + padded_right(""@, 12) + " ↳ "@, c.remedy->0, Seq::empty());
    }
}

/// The line of a check, and the one below it.
proof fn lemma_check_line(checks: Seq<CheckView>, i: int) -> (k: int)
    requires
        0 <= i < checks.len(),
    ensures
        ({
            let lines = all_check_lines(checks);
            let own = check_lines(checks[i]);
            &&& lines.len() >= checks.len()
            &&& 0 <= k <= lines.len() - own.len()
            &&& lines[k] == own[0]
            &&& own.len() == 2 ==> lines[k + 1] == own[1]
        }),
    decreases checks.len(),
{
    let before = all_check_lines(checks.drop_last());
    let own = check_lines(checks.last());
    assert(own.len() >= 1);
    if i == checks.len() - 1 {
        if checks.len() > 1 {
            let _ = lemma_check_line(checks.drop_last(), 0);
        }
        before.len() as int
    } else {
        lemma_check_line(checks.drop_last(), i)
    }
}

/// What is advised stands at the end of the page, each piece of advice on a line of its own.
pub proof fn every_advice_has_its_line(b: BatteryReportView, i: int)
    requires
        0 <= i < b.recommendations.len(),
    ensures
        ({
            let page = battery_lines(b);
            let n = b.recommendations.len();
            &&& n <= page.len()
            &&& page[page.len() - n + i] == "  • "@ + b.recommendations[i]
        }),
{
}

/// The host's page shows its budget, the power it runs on, and below that its apps.
pub proof fn the_hosts_page_ends_with_its_apps(s: HostStatusView)
    ensures
        ({
            let page = host_lines(s);
            let end = apps_lines(s.apps);
            &&& end.len() + 5 <= page.len()
            &&& page.skip(page.len() - end.len()) == end
            &&& closes_with(
                page[0],
                if s.doctor_green {
                    "GREEN"@
                } else {
                    "RED"@
                },
            )
            &&& opens_with(
                page[2],
                "memory:   "@ + text::decimal(s.ledger.allocated_mb as nat) + "MB allocated of "@
                    + text::decimal(s.ledger.allocatable_mb as nat),
            )
            &&& opens_with(
                page[3],
                "power:    "@ + if s.power.on_ac {
                    "AC power"@
                } else {
                    "ON BATTERY"@
                },
            )
        }),
{
    let page = host_lines(s);
    let end = apps_lines(s.apps);
    assert(page.skip(page.len() - end.len()) =~= end);
    let health = color_of(s.doctor_green);
    lemma_parts(page[0].take(page[0].len() - health.len()), health, Seq::empty());
    assert(page[0] =~= page[0].take(page[0].len() - health.len()) + health);
    let memory = "memory:   "@ + text::decimal(s.ledger.allocated_mb as nat) + "MB allocated of "@
        + text::decimal(s.ledger.allocatable_mb as nat);
    lemma_parts(Seq::empty(), memory, page[2].skip(memory.len() as int));
    assert(page[2] =~= memory + page[2].skip(memory.len() as int));
    let power = "power:    "@ + if s.power.on_ac {
        "AC power"@
    } else {
        "ON BATTERY"@
    };
    lemma_parts(Seq::empty(), power, page[3].skip(power.len() as int));
    assert(page[3] =~= power + page[3].skip(power.len() as int));
}

/// The answer to a deploy names the app and where it is reached: its public name where it has
/// one, else why it has none, else that it is still to come.
pub proof fn deploys_tell_where_the_app_is(resp: DeployResponseView)
    ensures
        ({
            let page = deploy_lines(resp);
            &&& page.len() == 3
            &&& opens_with(page[0], resp.app.name + " deployed"@)
            &&& closes_with(page[1], resp.app.local_url)
            &&& resp.app.url matches Some(url) ==> closes_with(page[2], url)
            &&& resp.app.url is None ==> (resp.tunnel_note matches Some(note) ==> closes_with(
                page[2],
                note,
            ))
            &&& resp.app.url is None && resp.tunnel_note is None ==> tells(
                page[2],
                "`hades url "@ + resp.app.name,
            )
        }),
{
    let page = deploy_lines(resp);
    let first = resp.app.name + " deployed"@;
    lemma_parts(Seq::empty(), first, page[0].skip(first.len() as int));
    assert(page[0] =~= first + page[0].skip(first.len() as int));
    lemma_parts("  local:  "@, resp.app.local_url, Seq::empty());
    match resp.app.url {
        Some(url) => {
            lemma_parts("  public: "@, url, Seq::empty());
        },
        None => match resp.tunnel_note {
            Some(note) => {
                lemma_parts("  public: (none); "@, note, Seq::empty());
            },
            None => {
                reveal_strlit("  public: provisioning… run `hades url ");
                reveal_strlit("`hades url ");
                let whole = "  public: provisioning… run `hades url "@;
                let call = "`hades url "@;
                let head = whole.take(whole.len() - call.len());
                assert(whole.skip(whole.len() - call.len()) =~= call);
                assert(whole =~= head + call);
                let end = "` in a few seconds"@;
                lemma_parts(head, call + resp.app.name, end);
                assert(page[2] =~= head + (call + resp.app.name) + end);
            },
        },
    }
}

} // verus!
