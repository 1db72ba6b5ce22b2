//! The local status snapshot, its text, its parsers and the threshold alerts.
use vstd::prelude::*;

use crate::context::FocusContext;
use crate::duration::Duration;
use crate::text::{
    chars_of, contains, contains_range, decimal, first_trimmed_prefixed,
    first_trimmed_prefixed_range, first_word, first_word_range, lemma_lines_cons, lines,
    next_line, nth_word_range, parse_u64, parse_u64_range, parse_u8, parse_u8_range, piece,
    push_decimal, range_eq, strip_suffix_char, strip_suffix_range, trim, trim_range,
    trimmed_eq, words,
};

verus! {

#[derive(Debug, Clone, PartialEq, Eq, Structural)]
pub struct BatteryStatus {
    pub percentage: u8,
    pub charging: bool,
}

#[derive(Debug, Clone, PartialEq, Eq)]
pub struct SystemStatus {
    pub memory_used_percent: u8,
    pub load_average: Option<String>,
    pub disk_available_gib: Option<u64>,
    pub battery: Option<BatteryStatus>,
    pub network_connected: bool,
    pub focus: Option<FocusContext>,
}

pub open spec fn battery_text(battery: Option<BatteryStatus>) -> Seq<char> {
    match battery {
        None => "Battery: unavailable"@,
        Some(b) => "Battery: "@ + decimal(b.percentage as nat) + "% ("@ + (if b.charging {
            "charging"@
        } else {
            "discharging"@
        }) + ")"@,
    }
}

pub open spec fn disk_text(disk: Option<u64>) -> Seq<char> {
    match disk {
        None => "Disk: unavailable"@,
        Some(a) => "Disk free: "@ + decimal(a as nat) + " GiB"@,
    }
}

pub open spec fn load_text(load: Option<Seq<char>>) -> Seq<char> {
    match load {
        None => "Load average: unavailable"@,
        Some(l) => "Load average: "@ + l,
    }
}

pub open spec fn focus_text(focus: Option<FocusContext>) -> Seq<char> {
    match focus {
        None => "disabled"@,
        Some(f) => f.spec_label(),
    }
}

/// The multi-line status summary shown in the status panel.
pub open spec fn status_text(status: SystemStatus) -> Seq<char> {
    "Memory: "@ + decimal(status.memory_used_percent as nat) + "%\n"@ + load_text(
        match status.load_average {
            Some(l) => Some(l@),
            None => None,
        },
    ) + "\n"@ + disk_text(status.disk_available_gib) + "\n"@ + battery_text(status.battery)
        + "\nNetwork: "@ + (if status.network_connected {
        "connected"@
    } else {
        "offline"@
    }) + "\nFocus: "@ + focus_text(status.focus)
}

fn push_load_text(s: &mut String, load: &Option<String>)
    ensures
        final(s)@ == old(s)@ + load_text(
            match load {
                Some(l) => Some(l@),
                None => None,
            },
        ),
{
    match load {
        None => s.append("Load average: unavailable"),
        Some(load) => {
            s.append("Load average: ");
            s.append(load.as_str());
        },
    }
}

fn push_disk_text(s: &mut String, disk: Option<u64>)
    ensures
        final(s)@ == old(s)@ + disk_text(disk),
{
    match disk {
        None => s.append("Disk: unavailable"),
        Some(available) => {
            s.append("Disk free: ");
            push_decimal(s, available);
            s.append(" GiB");
            assert(final(s)@ =~= old(s)@ + disk_text(disk));
        },
    }
}

fn push_battery_text(s: &mut String, battery: &Option<BatteryStatus>)
    ensures
        final(s)@ == old(s)@ + battery_text(*battery),
{
    match battery {
        None => s.append("Battery: unavailable"),
        Some(battery) => {
            s.append("Battery: ");
            push_decimal(s, battery.percentage as u64);
            s.append("% (");
            s.append(
                if battery.charging {
                    "charging"
                } else {
                    "discharging"
                },
            );
            s.append(")");
            assert(final(s)@ =~= old(s)@ + battery_text(Some(*battery)));
        },
    }
}

pub fn format_status(status: &SystemStatus) -> (s: String)
    ensures
        s@ == status_text(*status),
{
    let mut s = String::new();
    s.append("Memory: ");
    push_decimal(&mut s, status.memory_used_percent as u64);
    s.append("%\n");
    let ghost s1 = s@;
    push_load_text(&mut s, &status.load_average);
    s.append("\n");
    let ghost s2 = s@;
    push_disk_text(&mut s, status.disk_available_gib);
    s.append("\n");
    let ghost s3 = s@;
    push_battery_text(&mut s, &status.battery);
    s.append("\nNetwork: ");
    s.append(
        if status.network_connected {
            "connected"
        } else {
            "offline"
        },
    );
    s.append("\nFocus: ");
    let ghost s4 = s@;
    match status.focus {
        None => s.append("disabled"),
        Some(focus) => s.append(focus.label()),
    }
    assert(s@ == s4 + focus_text(status.focus));
    assert(s@ =~= status_text(*status));
    s
}

/// The first whitespace-separated field of `/proc/loadavg`.
pub fn parse_load_average(loadavg: &str) -> (r: Option<String>)
    ensures
        match r {
            Some(l) => first_word(loadavg@) == Some(l@),
            None => first_word(loadavg@) is None,
        },
{
    let v = chars_of(loadavg);
    assert(v@.subrange(0, v@.len() as int) =~= v@);
    match first_word_range(&v, 0, v.len()) {
        Some((a, b)) => Some(piece(loadavg, a, b)),
        None => None,
    }
}

/// Free space in GiB from `df -Pk /` output: the fourth field of the second
/// line, in KiB, divided by 1 048 576.
pub open spec fn disk_gib(df: Seq<char>) -> Option<u64> {
    let ls = lines(df);
    if ls.len() < 2 {
        None
    } else {
        let fields = words(ls[1]);
        if fields.len() < 4 {
            None
        } else {
            match parse_u64(fields[3]) {
                Some(kib) => Some(kib / 1_048_576),
                None => None,
            }
        }
    }
}

pub fn parse_disk_available_gib(df: &str) -> (r: Option<u64>)
    ensures
        r == disk_gib(df@),
{
    let v = chars_of(df);
    if v.len() == 0 {
        return None;
    }
    assert(v@.skip(0) =~= v@);
    let (_e0, n0) = next_line(&v, 0);
    proof {
        crate::text::lemma_lines_cons(v@, v@.subrange(0, _e0 as int), lines(v@.skip(n0 as int)));
    }
    if n0 == v.len() {
        assert(v@.skip(n0 as int) =~= Seq::<char>::empty());
        return None;
    }
    let (e1, n1) = next_line(&v, n0);
    proof {
        let l1 = v@.subrange(n0 as int, e1 as int);
        lemma_lines_cons(v@.skip(n0 as int), l1, lines(v@.skip(n1 as int)));
        assert(lines(v@)[1] == l1);
    }
    match nth_word_range(&v, n0, e1, 3) {
        Some((a, b)) => match parse_u64_range(&v, a, b) {
            Some(kib) => Some(kib / 1_048_576),
            None => None,
        },
        None => None,
    }
}

/// Battery state from `upower -i <device>` output.
pub open spec fn battery_from_details(details: Seq<char>) -> Option<BatteryStatus> {
    match first_trimmed_prefixed(lines(details), "percentage:"@) {
        None => None,
        Some(rest) => match strip_suffix_char(trim(rest), '%') {
            None => None,
            Some(number) => match parse_u8(number) {
                None => None,
                Some(percentage) => Some(
                    BatteryStatus {
                        percentage,
                        charging: match first_trimmed_prefixed(lines(details), "state:"@) {
                            Some(state) => trim(state) == "charging"@,
                            None => false,
                        },
                    },
                ),
            },
        },
    }
}

pub fn parse_battery_status(details: &str) -> (r: Option<BatteryStatus>)
    ensures
        r == battery_from_details(details@),
{
    let v = chars_of(details);
    let percentage_key = chars_of("percentage:");
    let (a, b) = match first_trimmed_prefixed_range(&v, &percentage_key) {
        Some(range) => range,
        None => return None,
    };
    let (c, d) = trim_range(&v, a, b);
    let e = match strip_suffix_range(&v, c, d, '%') {
        Some(e) => e,
        None => return None,
    };
    let percentage = match parse_u8_range(&v, c, e) {
        Some(p) => p,
        None => return None,
    };
    let state_key = chars_of("state:");
    let charging_word = chars_of("charging");
    let charging = match first_trimmed_prefixed_range(&v, &state_key) {
        Some((s0, s1)) => {
            let (t0, t1) = trim_range(&v, s0, s1);
            range_eq(&v, t0, t1, &charging_word)
        },
        None => false,
    };
    Some(BatteryStatus { percentage, charging })
}

/// The first line of `upower -e` output that names a battery device.
pub open spec fn battery_line(ls: Seq<Seq<char>>) -> Option<Seq<char>>
    decreases ls.len(),
{
    if ls.len() == 0 {
        None
    } else if contains(ls[0], "battery"@) {
        Some(ls[0])
    } else {
        battery_line(ls.drop_first())
    }
}

pub fn find_battery_device(devices: &str) -> (r: Option<&str>)
    ensures
        match r {
            Some(d) => battery_line(lines(devices@)) == Some(d@),
            None => battery_line(lines(devices@)) is None,
        },
{
    let v = chars_of(devices);
    let key = chars_of("battery");
    let mut pos: usize = 0;
    assert(v@.skip(0) =~= v@);
    while pos < v.len()
        invariant
            pos <= v@.len(),
            v@ == devices@,
            key@ == "battery"@,
            battery_line(lines(v@)) == battery_line(lines(v@.skip(pos as int))),
        decreases v@.len() - pos,
    {
        let (end, next) = next_line(&v, pos);
        let ghost line = v@.subrange(pos as int, end as int);
        proof {
            lemma_lines_cons(v@.skip(pos as int), line, lines(v@.skip(next as int)));
        }
        if contains_range(&v, pos, end, &key) {
            return Some(devices.substring_char(pos, end));
        }
        pos = next;
    }
    assert(v@.skip(pos as int) =~= Seq::<char>::empty());
    None
}

/// `nmcli -t -f STATE general` prints `connected` when the network is up.
pub fn parse_network_state(output: &str) -> (connected: bool)
    ensures
        connected == (trim(output@) == "connected"@),
{
    trimmed_eq(output, "connected")
}

#[derive(Debug, Clone, Copy, Hash, PartialEq, Eq, Structural)]
pub enum AlertKind {
    LowBattery,
    MemoryPressure,
    LowDisk,
    NetworkOffline,
}

impl AlertKind {
    pub open spec fn spec_summary(self) -> Seq<char> {
        match self {
            AlertKind::LowBattery => "Ikaros: low battery"@,
            AlertKind::MemoryPressure => "Ikaros: memory pressure"@,
            AlertKind::LowDisk => "Ikaros: low disk space"@,
            AlertKind::NetworkOffline => "Ikaros: network offline"@,
        }
    }

    pub fn summary(self) -> (r: &'static str)
        ensures
            r@ == self.spec_summary(),
    {
        match self {
            AlertKind::LowBattery => "Ikaros: low battery",
            AlertKind::MemoryPressure => "Ikaros: memory pressure",
            AlertKind::LowDisk => "Ikaros: low disk space",
            AlertKind::NetworkOffline => "Ikaros: network offline",
        }
    }
}

/// The body of the desktop notification for `alert`.
pub open spec fn alert_body(alert: AlertKind, status: SystemStatus) -> Seq<char> {
    match alert {
        AlertKind::LowBattery => match status.battery {
            None => "Battery is low."@,
            Some(b) => "Battery is at "@ + decimal(b.percentage as nat) + "%."@,
        },
        AlertKind::MemoryPressure => "Memory use is "@ + decimal(
            status.memory_used_percent as nat,
        ) + "%."@,
        AlertKind::LowDisk => match status.disk_available_gib {
            None => "Disk space is low."@,
            Some(a) => "Only "@ + decimal(a as nat) + " GiB remain on the root filesystem."@,
        },
        AlertKind::NetworkOffline => "The active NetworkManager connection was lost."@,
    }
}

pub fn notification_body(alert: AlertKind, status: &SystemStatus) -> (body: String)
    ensures
        body@ == alert_body(alert, *status),
{
    let mut body = String::new();
    match alert {
        AlertKind::LowBattery => match &status.battery {
            None => body.append("Battery is low."),
            Some(battery) => {
                body.append("Battery is at ");
                push_decimal(&mut body, battery.percentage as u64);
                body.append("%.");
            },
        },
        AlertKind::MemoryPressure => {
            body.append("Memory use is ");
            push_decimal(&mut body, status.memory_used_percent as u64);
            body.append("%.");
        },
        AlertKind::LowDisk => match status.disk_available_gib {
            None => body.append("Disk space is low."),
            Some(available) => {
                body.append("Only ");
                push_decimal(&mut body, available);
                body.append(" GiB remain on the root filesystem.");
            },
        },
        AlertKind::NetworkOffline => body.append("The active NetworkManager connection was lost."),
    }
    assert(body@ =~= alert_body(alert, *status));
    body
}

/// What an `AlertEngine` holds, as the contracts see it.
pub struct AlertEngineModel {
    pub last_seen: Map<AlertKind, nat>,
    pub cooldown: nat,
    pub was_connected: Option<bool>,
    /// The alerts whose condition held at the previous evaluation.
    pub held: Set<AlertKind>,
}

/// Tracks when each alert was last raised, which conditions held at the
/// previous evaluation, and the previous network state.
pub struct AlertEngine {
    last_low_battery: Option<Duration>,
    last_memory_pressure: Option<Duration>,
    last_low_disk: Option<Duration>,
    last_network_offline: Option<Duration>,
    cooldown: Duration,
    was_connected: Option<bool>,
    held_low_battery: bool,
    held_memory_pressure: bool,
    held_low_disk: bool,
    held_network_offline: bool,
}

pub open spec fn set_of_held(lb: bool, mp: bool, ld: bool, no: bool) -> Set<AlertKind> {
    Set::new(
        |k: AlertKind|
            match k {
                AlertKind::LowBattery => lb,
                AlertKind::MemoryPressure => mp,
                AlertKind::LowDisk => ld,
                AlertKind::NetworkOffline => no,
            },
    )
}

pub open spec fn opt_nanos(d: Option<Duration>) -> Option<nat> {
    match d {
        Some(x) => Some(x@),
        None => None,
    }
}

pub open spec fn map_of_last(lb: Option<nat>, mp: Option<nat>, ld: Option<nat>, no: Option<nat>) -> Map<AlertKind, nat> {
    Map::new(
        |k: AlertKind|
            match k {
                AlertKind::LowBattery => lb is Some,
                AlertKind::MemoryPressure => mp is Some,
                AlertKind::LowDisk => ld is Some,
                AlertKind::NetworkOffline => no is Some,
            },
        |k: AlertKind|
            match k {
                AlertKind::LowBattery => lb->0,
                AlertKind::MemoryPressure => mp->0,
                AlertKind::LowDisk => ld->0,
                AlertKind::NetworkOffline => no->0,
            },
    )
}

impl View for AlertEngine {
    type V = AlertEngineModel;

    closed spec fn view(&self) -> AlertEngineModel {
        AlertEngineModel {
            last_seen: map_of_last(
                opt_nanos(self.last_low_battery),
                opt_nanos(self.last_memory_pressure),
                opt_nanos(self.last_low_disk),
                opt_nanos(self.last_network_offline),
            ),
            cooldown: self.cooldown@,
            was_connected: self.was_connected,
            held: set_of_held(
                self.held_low_battery,
                self.held_memory_pressure,
                self.held_low_disk,
                self.held_network_offline,
            ),
        }
    }
}

/// Whether the condition behind `kind` holds in `status`, given the previous
/// network state.
pub open spec fn alert_condition(kind: AlertKind, status: SystemStatus, was_connected: Option<bool>) -> bool {
    match kind {
        AlertKind::LowBattery => match status.battery {
            Some(b) => b.percentage <= 15 && !b.charging,
            None => false,
        },
        AlertKind::MemoryPressure => status.memory_used_percent >= 90,
        AlertKind::LowDisk => match status.disk_available_gib {
            Some(a) => a < 10,
            None => false,
        },
        AlertKind::NetworkOffline => was_connected == Some(true) && !status.network_connected,
    }
}

/// `now.saturating_sub(last) >= cooldown`, or no earlier alert.
pub open spec fn cooldown_passed(last_seen: Map<AlertKind, nat>, kind: AlertKind, now: nat, cooldown: nat) -> bool {
    !last_seen.contains_key(kind) || (if now >= last_seen[kind] {
        now - last_seen[kind]
    } else {
        0
    }) >= cooldown
}

/// An alert fires when its condition crosses into holding (it did not hold at
/// the previous evaluation) and its cooldown has passed.
pub open spec fn fires(m: AlertEngineModel, kind: AlertKind, status: SystemStatus, now: nat) -> bool {
    alert_condition(kind, status, m.was_connected) && !m.held.contains(kind) && cooldown_passed(
        m.last_seen,
        kind,
        now,
        m.cooldown,
    )
}

/// The alerts of one evaluation, in a fixed order.
pub open spec fn fired_alerts(m: AlertEngineModel, status: SystemStatus, now: nat) -> Seq<AlertKind> {
    let s0 = Seq::<AlertKind>::empty();
    let s1 = if fires(m, AlertKind::LowBattery, status, now) {
        s0.push(AlertKind::LowBattery)
    } else {
        s0
    };
    let s2 = if fires(m, AlertKind::MemoryPressure, status, now) {
        s1.push(AlertKind::MemoryPressure)
    } else {
        s1
    };
    let s3 = if fires(m, AlertKind::LowDisk, status, now) {
        s2.push(AlertKind::LowDisk)
    } else {
        s2
    };
    if fires(m, AlertKind::NetworkOffline, status, now) {
        s3.push(AlertKind::NetworkOffline)
    } else {
        s3
    }
}

/// The engine after an evaluation: each alert raised is stamped with `now`, and
/// the conditions that hold and the network state are remembered.
pub open spec fn after_evaluation(m: AlertEngineModel, status: SystemStatus, now: nat) -> AlertEngineModel {
    AlertEngineModel {
        last_seen: Map::new(
            |k: AlertKind| m.last_seen.contains_key(k) || fires(m, k, status, now),
            |k: AlertKind|
                if fires(m, k, status, now) {
                    now
                } else {
                    m.last_seen[k]
                },
        ),
        cooldown: m.cooldown,
        was_connected: Some(status.network_connected),
        held: Set::new(|k: AlertKind| alert_condition(k, status, m.was_connected)),
    }
}

impl Default for AlertEngine {
    fn default() -> (e: AlertEngine)
        ensures
            e@.last_seen == Map::<AlertKind, nat>::empty(),
            e@.cooldown == 900 * 1_000_000_000,
            e@.was_connected is None,
            e@.held == Set::<AlertKind>::empty(),
    {
        let e = AlertEngine {
            last_low_battery: None,
            last_memory_pressure: None,
            last_low_disk: None,
            last_network_offline: None,
            cooldown: Duration::from_secs(15 * 60),
            was_connected: None,
            held_low_battery: false,
            held_memory_pressure: false,
            held_low_disk: false,
            held_network_offline: false,
        };
        assert(e@.last_seen =~= Map::<AlertKind, nat>::empty());
        assert(e@.held =~= Set::<AlertKind>::empty());
        e
    }
}

fn due(last: Option<Duration>, now: Duration, cooldown: Duration) -> (b: bool)
    ensures
        b == (last is None || (if now@ >= last->0@ {
            now@ - last->0@
        } else {
            0
        }) >= cooldown@),
{
    match last {
        None => true,
        Some(l) => now.saturating_sub(l).at_least(&cooldown),
    }
}

impl AlertEngine {
    /// Raises each alert whose condition has just come to hold (it did not hold at
    /// the previous evaluation) and whose cooldown has passed: low battery (at
    /// most 15% and discharging), memory pressure (at least 90%), low disk (under
    /// 10 GiB) and network offline (the transition from connected).
    pub fn evaluate(&mut self, status: &SystemStatus, now: Duration) -> (alerts: Vec<AlertKind>)
        ensures
            alerts@ == fired_alerts(old(self)@, *status, now@),
            final(self)@ == after_evaluation(old(self)@, *status, now@),
    {
        let ghost m = self@;
        let low_battery = match &status.battery {
            Some(battery) => battery.percentage <= 15 && !battery.charging,
            None => false,
        };
        let memory_pressure = status.memory_used_percent >= 90;
        let low_disk = match status.disk_available_gib {
            Some(available) => available < 10,
            None => false,
        };
        let network_offline = match self.was_connected {
            Some(was_connected) => was_connected && !status.network_connected,
            None => false,
        };
        assert(low_battery == alert_condition(AlertKind::LowBattery, *status, m.was_connected));
        assert(memory_pressure == alert_condition(AlertKind::MemoryPressure, *status, m.was_connected));
        assert(low_disk == alert_condition(AlertKind::LowDisk, *status, m.was_connected));
        assert(network_offline == alert_condition(AlertKind::NetworkOffline, *status, m.was_connected));
        self.was_connected = Some(status.network_connected);
        let cooldown = self.cooldown;
        let fired_lb = stamp(
            &mut self.last_low_battery,
            low_battery && !self.held_low_battery,
            now,
            cooldown,
        );
        let fired_mp = stamp(
            &mut self.last_memory_pressure,
            memory_pressure && !self.held_memory_pressure,
            now,
            cooldown,
        );
        let fired_ld = stamp(&mut self.last_low_disk, low_disk && !self.held_low_disk, now, cooldown);
        let fired_no = stamp(
            &mut self.last_network_offline,
            network_offline && !self.held_network_offline,
            now,
            cooldown,
        );
        self.held_low_battery = low_battery;
        self.held_memory_pressure = memory_pressure;
        self.held_low_disk = low_disk;
        self.held_network_offline = network_offline;
        assert(fired_lb == fires(m, AlertKind::LowBattery, *status, now@));
        assert(fired_mp == fires(m, AlertKind::MemoryPressure, *status, now@));
        assert(fired_ld == fires(m, AlertKind::LowDisk, *status, now@));
        assert(fired_no == fires(m, AlertKind::NetworkOffline, *status, now@));
        let mut alerts: Vec<AlertKind> = Vec::new();
        if fired_lb {
            alerts.push(AlertKind::LowBattery);
        }
        if fired_mp {
            alerts.push(AlertKind::MemoryPressure);
        }
        if fired_ld {
            alerts.push(AlertKind::LowDisk);
        }
        if fired_no {
            alerts.push(AlertKind::NetworkOffline);
        }
        proof {
            let after = after_evaluation(m, *status, now@);
            assert forall|k: AlertKind| #[trigger] self@.last_seen.contains_key(k)
                == after.last_seen.contains_key(k) && (self@.last_seen.contains_key(k)
                ==> self@.last_seen[k] == after.last_seen[k]) by {
                match k {
                    AlertKind::LowBattery => {},
                    AlertKind::MemoryPressure => {},
                    AlertKind::LowDisk => {},
                    AlertKind::NetworkOffline => {},
                }
            }
            assert(self@.last_seen =~= after.last_seen);
            assert(self@.held =~= after.held);
        }
        assert(alerts@ =~= fired_alerts(m, *status, now@));
        alerts
    }
}

/// Stamps `last` with `now` when `condition` holds and the cooldown has passed.
fn stamp(last: &mut Option<Duration>, condition: bool, now: Duration, cooldown: Duration) -> (fired: bool)
    ensures
        fired == (condition && (*old(last) is None || (if now@ >= old(last)->0@ {
            now@ - old(last)->0@
        } else {
            0
        }) >= cooldown@)),
        *final(last) == if fired {
            Some(now)
        } else {
            *old(last)
        },
{
    if condition && due(*last, now, cooldown) {
        *last = Some(now);
        true
    } else {
        false
    }
}

// ---------------------------------------------------------------------------
// Laws
// ---------------------------------------------------------------------------
/// Each alert is raised at most once per cooldown: after `kind` fired at
/// `first`, an evaluation before `first` plus the cooldown does not raise it.
pub proof fn law_alert_once_per_cooldown(
    m: AlertEngineModel,
    s1: SystemStatus,
    first: nat,
    s2: SystemStatus,
    second: nat,
    kind: AlertKind,
)
    requires
        fires(m, kind, s1, first),
        m.cooldown > 0,
        first <= second < first + m.cooldown,
    ensures
        !fired_alerts(after_evaluation(m, s1, first), s2, second).contains(kind),
{
    let m2 = after_evaluation(m, s1, first);
    assert(!fires(m2, kind, s2, second));
    lemma_fired_alerts_members(m2, s2, second, kind);
}

proof fn lemma_push_contains(s: Seq<AlertKind>, x: AlertKind, y: AlertKind)
    ensures
        s.push(x).contains(y) == (s.contains(y) || x == y),
{
    if s.push(x).contains(y) {
        let j = choose|j: int| 0 <= j < s.push(x).len() && s.push(x)[j] == y;
        if j < s.len() {
            assert(s[j] == y);
        }
    }
    if s.contains(y) {
        let j = choose|j: int| 0 <= j < s.len() && s[j] == y;
        assert(s.push(x)[j] == y);
    }
    if x == y {
        assert(s.push(x)[s.len() as int] == y);
    }
}

/// An alert is in the evaluation's list exactly when it fires.
pub proof fn lemma_fired_alerts_members(m: AlertEngineModel, status: SystemStatus, now: nat, kind: AlertKind)
    ensures
        fired_alerts(m, status, now).contains(kind) == fires(m, kind, status, now),
{
    let s0 = Seq::<AlertKind>::empty();
    let s1 = if fires(m, AlertKind::LowBattery, status, now) {
        s0.push(AlertKind::LowBattery)
    } else {
        s0
    };
    let s2 = if fires(m, AlertKind::MemoryPressure, status, now) {
        s1.push(AlertKind::MemoryPressure)
    } else {
        s1
    };
    let s3 = if fires(m, AlertKind::LowDisk, status, now) {
        s2.push(AlertKind::LowDisk)
    } else {
        s2
    };
    lemma_push_contains(s0, AlertKind::LowBattery, kind);
    lemma_push_contains(s1, AlertKind::MemoryPressure, kind);
    lemma_push_contains(s2, AlertKind::LowDisk, kind);
    lemma_push_contains(s3, AlertKind::NetworkOffline, kind);
    assert(!s0.contains(kind));
}

/// An alert needs a new crossing: while its condition keeps holding from one
/// evaluation to the next, it is not raised again, whatever the cooldown.
pub proof fn law_alert_needs_crossing(
    m: AlertEngineModel,
    s1: SystemStatus,
    first: nat,
    s2: SystemStatus,
    second: nat,
    kind: AlertKind,
)
    requires
        alert_condition(kind, s1, m.was_connected),
    ensures
        !fired_alerts(after_evaluation(m, s1, first), s2, second).contains(kind),
{
    let m2 = after_evaluation(m, s1, first);
    assert(m2.held.contains(kind));
    lemma_fired_alerts_members(m2, s2, second, kind);
}

/// An alert is raised on a crossing once the cooldown has passed: a condition
/// that did not hold at the previous evaluation and holds now fires when no
/// alert of its kind came within the cooldown.
pub proof fn law_alert_on_crossing(m: AlertEngineModel, status: SystemStatus, now: nat, kind: AlertKind)
    requires
        alert_condition(kind, status, m.was_connected),
        !m.held.contains(kind),
        cooldown_passed(m.last_seen, kind, now, m.cooldown),
    ensures
        fired_alerts(m, status, now).contains(kind),
        after_evaluation(m, status, now).last_seen[kind] == now,
{
    lemma_fired_alerts_members(m, status, now, kind);
}

/// What each alert means: low battery only for a battery at or below 15% that
/// is not charging, memory pressure only at 90% or more, low disk only under
/// 10 GiB free, network offline only when a connected network went offline.
/// Conversely, each of these conditions raises its alert when it did not hold at
/// the previous evaluation and the alert's cooldown has passed.
pub proof fn law_alert_conditions(m: AlertEngineModel, s: SystemStatus, now: nat)
    ensures
        fired_alerts(m, s, now).contains(AlertKind::LowBattery) ==> (s.battery matches Some(b)
            && b.percentage <= 15 && !b.charging),
        fired_alerts(m, s, now).contains(AlertKind::MemoryPressure) ==> s.memory_used_percent
            >= 90,
        fired_alerts(m, s, now).contains(AlertKind::LowDisk) ==> (s.disk_available_gib matches Some(
            a,
        ) && a < 10),
        fired_alerts(m, s, now).contains(AlertKind::NetworkOffline) ==> m.was_connected == Some(
            true,
        ) && !s.network_connected,
        (s.battery matches Some(b) && b.percentage <= 15 && !b.charging) && !m.held.contains(
            AlertKind::LowBattery,
        ) && cooldown_passed(m.last_seen, AlertKind::LowBattery, now, m.cooldown) ==> fired_alerts(
            m,
            s,
            now,
        ).contains(AlertKind::LowBattery),
        s.memory_used_percent >= 90 && !m.held.contains(AlertKind::MemoryPressure)
            && cooldown_passed(m.last_seen, AlertKind::MemoryPressure, now, m.cooldown)
            ==> fired_alerts(m, s, now).contains(AlertKind::MemoryPressure),
        (s.disk_available_gib matches Some(a) && a < 10) && !m.held.contains(AlertKind::LowDisk)
            && cooldown_passed(m.last_seen, AlertKind::LowDisk, now, m.cooldown) ==> fired_alerts(
            m,
            s,
            now,
        ).contains(AlertKind::LowDisk),
{
    lemma_fired_alerts_members(m, s, now, AlertKind::LowBattery);
    lemma_fired_alerts_members(m, s, now, AlertKind::MemoryPressure);
    lemma_fired_alerts_members(m, s, now, AlertKind::LowDisk);
    lemma_fired_alerts_members(m, s, now, AlertKind::NetworkOffline);
}

/// The network alert comes only on the transition from connected to offline.
pub proof fn law_network_offline_only_on_transition(
    m: AlertEngineModel,
    status: SystemStatus,
    now: nat,
)
    ensures
        fired_alerts(m, status, now).contains(AlertKind::NetworkOffline) ==> m.was_connected
            == Some(true) && !status.network_connected,
        after_evaluation(m, status, now).was_connected == Some(status.network_connected),
{
    lemma_fired_alerts_members(m, status, now, AlertKind::NetworkOffline);
}

} // verus!
