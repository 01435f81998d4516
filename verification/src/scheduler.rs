//! The pulse/soak scheduler: one small state machine per zone.
//!
//! A zone is idle until its moisture falls below its minimum. It is then
//! watered for one pulse and left to soak, after which it is idle again and
//! judged afresh. The scheduler never drives a valve: it asks for a command
//! on the bus, which comes back through the safety gate.

use vstd::prelude::*;
use crate::config::OperationMode;
use crate::db::ZoneConfig;
use crate::ingest::{Now, seconds_between};
use crate::level::{Level, fixed3, le_bits, push_fixed3};
use crate::mqtt::{three_part_topic, valve_topic};
use crate::safety::CounterRead;
use crate::state::{EventKind, EventView, StateView, SystemState};
use crate::table::Table;
use crate::text::{decimal, decimal_nat, push_int, push_nat, push_str};

verus! {

/// The seconds between two evaluations of the zones.
pub const TICK_INTERVAL_SEC: u64 = 30;

/// How many of the newest readings of a zone are averaged.
pub const AVG_WINDOW: i64 = 5;

/// Where a zone stands in its watering cycle. Times are whole seconds on the
/// monotonic clock.
#[derive(Clone, Copy, Debug)]
pub enum ZoneScheduleState {
    /// Waiting for the moisture to fall below the minimum.
    Idle,
    /// The valve was asked to open at `since`.
    Watering { since: u64 },
    /// The valve was asked to close; nothing happens before `until`.
    Soaking { until: u64 },
}

/// What the store gave back on one query.
#[derive(Clone, Copy, Debug)]
pub enum Fetched<T> {
    /// The value that was asked for.
    Found(T),
    /// There is no such value.
    Missing,
    /// The query failed.
    Failed,
}

/// What the store says of a zone when the zone is evaluated.
#[derive(Clone, Copy, Debug)]
pub struct ZoneReads {
    /// The time in Unix seconds and the moisture of the newest reading of the zone.
    pub latest: Fetched<(i64, Level)>,
    /// The counters of the zone for today.
    pub counters: CounterRead,
    /// The mean moisture of the `AVG_WINDOW` newest readings of the zone.
    pub average: Fetched<Level>,
}

/// A command that the scheduler wants on the bus.
#[derive(Debug)]
pub struct PublishRequest {
    /// The topic: `valve/<zone>/set`.
    pub topic: String,
    /// `ON` when true, `OFF` when false.
    pub on: bool,
}

/// What the scheduler makes of an idle zone.
#[derive(Clone, Copy, Debug, PartialEq, Eq, Structural)]
pub enum IdleVerdict {
    /// Nothing to do.
    Stay,
    /// Monitor mode: the moisture is low, which is reported.
    Alert,
    /// Auto mode: the moisture is low, a pulse is to start.
    StartPulse,
}

/// The tick-local view of the valve ceiling: the valves that were on when the
/// tick began, and the pulses that were started since.
#[derive(Clone, Copy, Debug)]
pub struct Tick {
    pub base_active: usize,
    pub started_this_tick: usize,
}

/// Whether the counters were read and leave room under both daily caps.
pub open spec fn caps_leave_room(cfg: ZoneConfig, counters: CounterRead) -> bool {
    match counters {
        CounterRead::Known { pulses, open_sec } => pulses < cfg.max_pulses_per_day && open_sec
            < cfg.max_open_sec_per_day,
        CounterRead::Failed => false,
    }
}

/// Whether the newest reading was found and is no older than the zone allows.
pub open spec fn reading_is_fresh(cfg: ZoneConfig, latest: Fetched<(i64, Level)>, now: Now) -> bool {
    match latest {
        Fetched::Found(r) => now.unix_secs - r.0 <= cfg.stale_timeout_min * 60,
        _ => false,
    }
}

/// Whether the mean moisture was found and does not reach `threshold`. A
/// mean that is no number does not reach any threshold.
pub open spec fn mean_is_below(average: Fetched<Level>, threshold: Level) -> bool {
    match average {
        Fetched::Found(m) => !le_bits(threshold.bits, m.bits),
        _ => false,
    }
}

/// What the scheduler makes of an idle zone.
///
/// In auto mode the zone is passed over unless the bus is connected, its
/// valve is off, and fewer valves are on than may be on at once, counted
/// both on the state and on the tick. In both modes it is passed over unless
/// its newest reading is fresh. In auto mode it is passed over unless the
/// counters of the day were read and leave room under both caps. In both
/// modes it is passed over unless the mean moisture lies below its minimum.
/// What is left is a pulse in auto mode and an alert in monitor mode.
pub open spec fn idle_verdict(
    mode: OperationMode,
    state: StateView,
    tick: Tick,
    ceiling: nat,
    zone: Seq<char>,
    cfg: ZoneConfig,
    reads: ZoneReads,
    now: Now,
) -> IdleVerdict {
    let auto = mode is Auto;
    if auto && (tick.base_active + tick.started_this_tick >= ceiling || !state.mqtt_connected
        || state.zone_on(zone) || state.active() >= ceiling) {
        IdleVerdict::Stay
    } else if !reading_is_fresh(cfg, reads.latest, now) {
        IdleVerdict::Stay
    } else if auto && !caps_leave_room(cfg, reads.counters) {
        IdleVerdict::Stay
    } else if !mean_is_below(reads.average, cfg.min_moisture) {
        IdleVerdict::Stay
    } else if auto {
        IdleVerdict::StartPulse
    } else {
        IdleVerdict::Alert
    }
}

/// Judges an idle zone.
pub fn decide_idle(
    mode: OperationMode,
    shared: &SystemState,
    tick: Tick,
    max_concurrent_valves: usize,
    zone_id: &str,
    cfg: &ZoneConfig,
    reads: &ZoneReads,
    now: Now,
) -> (v: IdleVerdict)
    ensures
        v == idle_verdict(
            mode,
            shared@,
            tick,
            max_concurrent_valves as nat,
            zone_id@,
            *cfg,
            *reads,
            now,
        ),
{
    let auto = mode == OperationMode::Auto;
    if auto {
        if tick.base_active as u128 + tick.started_this_tick as u128
            >= max_concurrent_valves as u128 {
            return IdleVerdict::Stay;
        }
        if !shared.mqtt_connected() || shared.zone_is_on(zone_id) || shared.active_zones()
            >= max_concurrent_valves {
            return IdleVerdict::Stay;
        }
    }
    match reads.latest {
        Fetched::Found(r) => {
            if now.unix_secs as i128 - r.0 as i128 > cfg.stale_timeout_min as i128 * 60 {
                return IdleVerdict::Stay;
            }
        },
        _ => {
            return IdleVerdict::Stay;
        },
    }
    if auto {
        match reads.counters {
            CounterRead::Known { pulses, open_sec } => {
                if pulses >= cfg.max_pulses_per_day || open_sec >= cfg.max_open_sec_per_day {
                    return IdleVerdict::Stay;
                }
            },
            CounterRead::Failed => {
                return IdleVerdict::Stay;
            },
        }
    }
    match reads.average {
        Fetched::Found(m) => {
            if m.ge(&cfg.min_moisture) {
                return IdleVerdict::Stay;
            }
        },
        _ => {
            return IdleVerdict::Stay;
        },
    }
    if auto {
        IdleVerdict::StartPulse
    } else {
        IdleVerdict::Alert
    }
}

/// The event of a low moisture alert.
pub open spec fn alert_text(zone: Seq<char>, mean: Level, min: Level) -> Seq<char> {
    zone + ": low moisture alert ("@ + fixed3(mean.bits) + " < min "@ + fixed3(min.bits) + ")"@
}

/// The event of a pulse that has started.
pub open spec fn pulse_started_text(zone: Seq<char>, mean: Level, min: Level) -> Seq<char> {
    zone + ": pulse started (moisture "@ + fixed3(mean.bits) + " < min "@ + fixed3(min.bits)
        + ")"@
}

/// The event of a pulse that is done.
pub open spec fn pulse_done_text(zone: Seq<char>, soak_min: i64) -> Seq<char> {
    zone + ": pulse done, soaking "@ + decimal(soak_min as int) + "min"@
}

/// The event of a soak after which the target is reached.
pub open spec fn target_reached_text(zone: Seq<char>, mean: Level, target: Level) -> Seq<char> {
    zone + ": target reached (moisture "@ + fixed3(mean.bits) + " >= target "@ + fixed3(
        target.bits,
    ) + ")"@
}

/// The event of a soak after which the target is not reached.
pub open spec fn soak_done_text(zone: Seq<char>, mean: Level, target: Level) -> Seq<char> {
    zone + ": soak done, moisture "@ + fixed3(mean.bits) + " < target "@ + fixed3(target.bits)
}

/// The mean in `average`; zero where none was found.
pub open spec fn mean_of(average: Fetched<Level>) -> Level {
    match average {
        Fetched::Found(m) => m,
        _ => Level { bits: 0 },
    }
}

/// The event that stands for a scheduler decision at `now`.
pub open spec fn scheduler_event(now: Now, detail: Seq<char>) -> EventView {
    EventView { ts: now.unix_nanos, kind: EventKind::Scheduler, detail }
}

fn request(zone_id: &str, on: bool) -> (r: PublishRequest)
    ensures
        r.topic@ == three_part_topic("valve"@, zone_id@, "set"@),
        r.on == on,
{
    PublishRequest { topic: valve_topic(zone_id), on }
}

/// Evaluates an idle zone. An alert is recorded at once. A pulse is asked
/// for: the zone stays idle until the command is known to be on the bus.
pub fn handle_idle(
    zone_id: &str,
    cfg: &ZoneConfig,
    reads: &ZoneReads,
    shared: &mut SystemState,
    tick: Tick,
    max_concurrent_valves: usize,
    mode: OperationMode,
    now: Now,
) -> (ask: Option<PublishRequest>)
    ensures
        ({
            let v = idle_verdict(
                mode,
                old(shared)@,
                tick,
                max_concurrent_valves as nat,
                zone_id@,
                *cfg,
                *reads,
                now,
            );
            &&& final(shared)@ == if v is Alert {
                old(shared)@.push_event(
                    scheduler_event(
                        now,
                        alert_text(zone_id@, mean_of(reads.average), cfg.min_moisture),
                    ),
                )
            } else {
                old(shared)@
            }
            &&& ask is Some <==> v is StartPulse
            &&& ask is Some ==> ask->0.on && ask->0.topic@ == three_part_topic(
                "valve"@,
                zone_id@,
                "set"@,
            )
        }),
        old(shared)@.wf() ==> final(shared)@.wf(),
        final(shared)@.zones == old(shared)@.zones,
{
    let v = decide_idle(mode, shared, tick, max_concurrent_valves, zone_id, cfg, reads, now);
    match v {
        IdleVerdict::Stay => None,
        IdleVerdict::Alert => {
            let mean = match reads.average {
                Fetched::Found(m) => m,
                _ => Level { bits: 0 },
            };
            let mut text: String = String::new();
            push_str(&mut text, zone_id);
            push_str(&mut text, ": low moisture alert (");
            push_fixed3(&mut text, mean);
            push_str(&mut text, " < min ");
            push_fixed3(&mut text, cfg.min_moisture);
            push_str(&mut text, ")");
            assert(text@ =~= alert_text(zone_id@, mean, cfg.min_moisture));
            shared.record_scheduler_at(now.unix_nanos, text);
            None
        },
        IdleVerdict::StartPulse => Some(request(zone_id, true)),
    }
}

/// Whether the pulse of a zone that is being watered since `since` is over.
pub open spec fn pulse_is_over(cfg: ZoneConfig, since: u64, now: Now) -> bool {
    seconds_between(since, now.mono_secs) >= cfg.pulse_sec
}

/// Evaluates a zone that is being watered: once the pulse is over, the valve
/// is asked to close. The zone stays as it is until the command is known to
/// be on the bus.
pub fn handle_watering(zone_id: &str, cfg: &ZoneConfig, since: u64, now: Now) -> (ask: Option<
    PublishRequest,
>)
    ensures
        ask is Some <==> pulse_is_over(*cfg, since, now),
        ask is Some ==> !ask->0.on && ask->0.topic@ == three_part_topic("valve"@, zone_id@, "set"@),
{
    let elapsed: i128 = if now.mono_secs < since {
        0
    } else if now.mono_secs - since > 0x7fff_ffff_ffff_ffff {
        0x7fff_ffff_ffff_ffff
    } else {
        (now.mono_secs - since) as i128
    };
    if elapsed < cfg.pulse_sec as i128 {
        None
    } else {
        Some(request(zone_id, false))
    }
}

/// The end of a soak that begins at `now`: `soak_min` minutes later, no
/// earlier than `now` and no later than the clock can tell.
pub open spec fn soak_deadline(now: Now, soak_min: i64) -> u64 {
    let wait = if soak_min <= 0 { 0int } else { soak_min * 60 };
    if now.mono_secs + wait > u64::MAX {
        u64::MAX
    } else {
        (now.mono_secs + wait) as u64
    }
}

/// The state of a zone and of the hub once a command of the scheduler was
/// handed to the bus. A command that did not get there changes nothing. An
/// `ON` that did starts the watering; an `OFF` that did starts the soak.
pub open spec fn after_publish(
    zone: Seq<char>,
    cfg: ZoneConfig,
    on: bool,
    sent: bool,
    mean: Level,
    zone_state: ZoneScheduleState,
    state: StateView,
    now: Now,
) -> (ZoneScheduleState, StateView) {
    if !sent {
        (zone_state, state)
    } else if on {
        (
            ZoneScheduleState::Watering { since: now.mono_secs },
            state.push_event(
                scheduler_event(now, pulse_started_text(zone, mean, cfg.min_moisture)),
            ),
        )
    } else {
        (
            ZoneScheduleState::Soaking { until: soak_deadline(now, cfg.soak_min) },
            state.push_event(scheduler_event(now, pulse_done_text(zone, cfg.soak_min))),
        )
    }
}

/// The tick after a command of the scheduler was handed to the bus: an `ON`
/// that got there takes one of the free places under the ceiling.
pub open spec fn tick_after_publish(tick: Tick, on: bool, sent: bool) -> Tick {
    if sent && on && tick.started_this_tick < usize::MAX {
        Tick { started_this_tick: (tick.started_this_tick + 1) as usize, ..tick }
    } else {
        tick
    }
}

/// Takes note of what became of a command of the scheduler. `mean` is the
/// mean moisture on which an `ON` was decided.
pub fn publish_done(
    tick: &mut Tick,
    zone_id: &str,
    cfg: &ZoneConfig,
    on: bool,
    sent: bool,
    mean: Level,
    state: &mut ZoneScheduleState,
    shared: &mut SystemState,
    now: Now,
)
    ensures
        (*final(state), final(shared)@) == after_publish(
            zone_id@,
            *cfg,
            on,
            sent,
            mean,
            *old(state),
            old(shared)@,
            now,
        ),
        *final(tick) == tick_after_publish(*old(tick), on, sent),
        old(shared)@.wf() ==> final(shared)@.wf(),
        final(shared)@.zones == old(shared)@.zones,
{
    if !sent {
        return ;
    }
    if on && tick.started_this_tick < usize::MAX {
        tick.started_this_tick = tick.started_this_tick + 1;
    }
    let mut text: String = String::new();
    push_str(&mut text, zone_id);
    if on {
        push_str(&mut text, ": pulse started (moisture ");
        push_fixed3(&mut text, mean);
        push_str(&mut text, " < min ");
        push_fixed3(&mut text, cfg.min_moisture);
        push_str(&mut text, ")");
        assert(text@ =~= pulse_started_text(zone_id@, mean, cfg.min_moisture));
        shared.record_scheduler_at(now.unix_nanos, text);
        *state = ZoneScheduleState::Watering { since: now.mono_secs };
    } else {
        push_str(&mut text, ": pulse done, soaking ");
        push_int(&mut text, cfg.soak_min);
        push_str(&mut text, "min");
        assert(text@ =~= pulse_done_text(zone_id@, cfg.soak_min));
        shared.record_scheduler_at(now.unix_nanos, text);
        let wait: u128 = if cfg.soak_min <= 0 { 0 } else { cfg.soak_min as u128 * 60 };
        let end: u128 = now.mono_secs as u128 + wait;
        let until: u64 = if end > 0xffff_ffff_ffff_ffff {
            0xffff_ffff_ffff_ffff
        } else {
            end as u64
        };
        *state = ZoneScheduleState::Soaking { until };
    }
}

/// The state of a zone and of the hub after a soaking zone was evaluated.
/// Before the soak is over nothing changes. After it the zone is idle again,
/// whatever the moisture: the next pulse has to pass every guard anew. Where
/// the mean moisture was found, the ring says whether the target is reached.
pub open spec fn after_soak(
    zone: Seq<char>,
    cfg: ZoneConfig,
    until: u64,
    average: Fetched<Level>,
    zone_state: ZoneScheduleState,
    state: StateView,
    now: Now,
) -> (ZoneScheduleState, StateView) {
    if now.mono_secs < until {
        (zone_state, state)
    } else {
        (
            ZoneScheduleState::Idle,
            match average {
                Fetched::Found(m) => state.push_event(
                    scheduler_event(
                        now,
                        if le_bits(cfg.target_moisture.bits, m.bits) {
                            target_reached_text(zone, m, cfg.target_moisture)
                        } else {
                            soak_done_text(zone, m, cfg.target_moisture)
                        },
                    ),
                ),
                _ => state,
            },
        )
    }
}

/// Evaluates a zone that is soaking.
pub fn handle_soaking(
    zone_id: &str,
    cfg: &ZoneConfig,
    until: u64,
    state: &mut ZoneScheduleState,
    average: Fetched<Level>,
    shared: &mut SystemState,
    now: Now,
)
    ensures
        (*final(state), final(shared)@) == after_soak(
            zone_id@,
            *cfg,
            until,
            average,
            *old(state),
            old(shared)@,
            now,
        ),
        old(shared)@.wf() ==> final(shared)@.wf(),
        final(shared)@.zones == old(shared)@.zones,
{
    if now.mono_secs < until {
        return ;
    }
    match average {
        Fetched::Found(m) => {
            let mut text: String = String::new();
            push_str(&mut text, zone_id);
            if m.ge(&cfg.target_moisture) {
                push_str(&mut text, ": target reached (moisture ");
                push_fixed3(&mut text, m);
                push_str(&mut text, " >= target ");
                push_fixed3(&mut text, cfg.target_moisture);
                push_str(&mut text, ")");
                assert(text@ =~= target_reached_text(zone_id@, m, cfg.target_moisture));
            } else {
                push_str(&mut text, ": soak done, moisture ");
                push_fixed3(&mut text, m);
                push_str(&mut text, " < target ");
                push_fixed3(&mut text, cfg.target_moisture);
                assert(text@ =~= soak_done_text(zone_id@, m, cfg.target_moisture));
            }
            shared.record_scheduler_at(now.unix_nanos, text);
        },
        _ => {},
    }
    *state = ZoneScheduleState::Idle;
}

/// The states that the scheduler starts with: every zone idle.
pub fn initial_states(zone_configs: &Table<ZoneConfig>) -> (states: Table<ZoneScheduleState>)
    ensures
        states.rows().len() == zone_configs.rows().len(),
        forall|i: int|
            0 <= i < states.rows().len() ==> (#[trigger] states.rows()[i]).0
                == zone_configs.rows()[i].0 && states.rows()[i].1 is Idle,
        zone_configs.wf() ==> states.wf(),
{
    let mut states: Table<ZoneScheduleState> = Table::new();
    let mut i: usize = 0;
    while i < zone_configs.len()
        invariant
            i <= zone_configs.rows().len(),
            states.rows().len() == i,
            forall|j: int|
                0 <= j < i ==> (#[trigger] states.rows()[j]).0 == zone_configs.rows()[j].0
                    && states.rows()[j].1 is Idle,
        decreases zone_configs.rows().len() - i,
    {
        states.push_row(zone_configs.key(i).as_str(), ZoneScheduleState::Idle);
        i += 1;
    }
    proof {
        if zone_configs.wf() {
            assert forall|a: int, b: int| 0 <= a < b < states.rows().len() implies states.rows()[a].0
                != states.rows()[b].0 by {
                assert(zone_configs.rows()[a].0 != zone_configs.rows()[b].0);
            }
        }
    }
    states
}

/// The name of a mode in an event.
pub open spec fn mode_name(mode: OperationMode) -> Seq<char> {
    match mode {
        OperationMode::Auto => "Auto"@,
        OperationMode::Monitor => "Monitor"@,
    }
}

/// The event with which the scheduler starts.
pub open spec fn started_text(mode: OperationMode, ceiling: nat) -> Seq<char> {
    "scheduler started (mode: "@ + mode_name(mode) + ", max concurrent valves: "@ + decimal_nat(
        ceiling,
    ) + ")"@
}

/// Records that the scheduler has started.
pub fn scheduler_started(
    shared: &mut SystemState,
    mode: OperationMode,
    max_concurrent_valves: usize,
    now: Now,
)
    ensures
        final(shared)@ == old(shared)@.push_event(
            scheduler_event(now, started_text(mode, max_concurrent_valves as nat)),
        ),
        old(shared)@.wf() ==> final(shared)@.wf(),
        final(shared)@.zones == old(shared)@.zones,
{
    let mut text: String = String::new();
    push_str(&mut text, "scheduler started (mode: ");
    match mode {
        OperationMode::Auto => push_str(&mut text, "Auto"),
        OperationMode::Monitor => push_str(&mut text, "Monitor"),
    }
    push_str(&mut text, ", max concurrent valves: ");
    push_nat(&mut text, max_concurrent_valves as u128);
    push_str(&mut text, ")");
    assert(text@ =~= started_text(mode, max_concurrent_valves as nat));
    shared.record_scheduler_at(now.unix_nanos, text);
}

/// Begins a tick: counts the valves that are on, and no pulse of this tick yet.
pub fn begin_tick(shared: &SystemState) -> (tick: Tick)
    ensures
        tick.base_active == shared@.active(),
        tick.started_this_tick == 0,
{
    Tick { base_active: shared.active_zones(), started_this_tick: 0 }
}

/// Evaluates one zone in a tick, by the state it is in. Returns the command
/// that the scheduler wants on the bus, if any; what becomes of the command
/// is to be told to `publish_done`.
pub fn tick_zone(
    tick: Tick,
    zone_id: &str,
    cfg: &ZoneConfig,
    state: &mut ZoneScheduleState,
    reads: &ZoneReads,
    shared: &mut SystemState,
    max_concurrent_valves: usize,
    mode: OperationMode,
    now: Now,
) -> (ask: Option<PublishRequest>)
    ensures
        match *old(state) {
            ZoneScheduleState::Idle => {
                let v = idle_verdict(
                    mode,
                    old(shared)@,
                    tick,
                    max_concurrent_valves as nat,
                    zone_id@,
                    *cfg,
                    *reads,
                    now,
                );
                &&& *final(state) == *old(state)
                &&& final(shared)@ == if v is Alert {
                    old(shared)@.push_event(
                        scheduler_event(
                            now,
                            alert_text(zone_id@, mean_of(reads.average), cfg.min_moisture),
                        ),
                    )
                } else {
                    old(shared)@
                }
                &&& ask is Some <==> v is StartPulse
                &&& ask is Some ==> ask->0.on
            },
            ZoneScheduleState::Watering { since } => {
                &&& *final(state) == *old(state)
                &&& final(shared)@ == old(shared)@
                &&& ask is Some <==> pulse_is_over(*cfg, since, now)
                &&& ask is Some ==> !ask->0.on
            },
            ZoneScheduleState::Soaking { until } => {
                &&& (*final(state), final(shared)@) == after_soak(
                    zone_id@,
                    *cfg,
                    until,
                    reads.average,
                    *old(state),
                    old(shared)@,
                    now,
                )
                &&& ask is None
            },
        },
        ask is Some ==> ask->0.topic@ == three_part_topic("valve"@, zone_id@, "set"@),
        old(shared)@.wf() ==> final(shared)@.wf(),
        final(shared)@.zones == old(shared)@.zones,
{
    match *state {
        ZoneScheduleState::Idle => handle_idle(
            zone_id,
            cfg,
            reads,
            shared,
            tick,
            max_concurrent_valves,
            mode,
            now,
        ),
        ZoneScheduleState::Watering { since } => handle_watering(zone_id, cfg, since, now),
        ZoneScheduleState::Soaking { until } => {
            handle_soaking(zone_id, cfg, until, state, reads.average, shared, now);
            None
        },
    }
}

/// In monitor mode the scheduler never asks for a valve to open.
pub proof fn lemma_monitor_never_waters(
    state: StateView,
    tick: Tick,
    ceiling: nat,
    zone: Seq<char>,
    cfg: ZoneConfig,
    reads: ZoneReads,
    now: Now,
)
    ensures
        !(idle_verdict(OperationMode::Monitor, state, tick, ceiling, zone, cfg, reads, now)
            is StartPulse),
{
}

/// A pulse is only ever started for a zone whose valve is off, on fresh
/// readings, with room under both daily caps, while the bus is connected and
/// a place under the valve ceiling is free, counted on the state and on the tick.
pub proof fn lemma_pulse_passes_all_guards(
    mode: OperationMode,
    state: StateView,
    tick: Tick,
    ceiling: nat,
    zone: Seq<char>,
    cfg: ZoneConfig,
    reads: ZoneReads,
    now: Now,
)
    requires
        idle_verdict(mode, state, tick, ceiling, zone, cfg, reads, now) is StartPulse,
    ensures
        mode is Auto,
        state.mqtt_connected,
        !state.zone_on(zone),
        state.active() < ceiling,
        tick.base_active + tick.started_this_tick < ceiling,
        reading_is_fresh(cfg, reads.latest, now),
        caps_leave_room(cfg, reads.counters),
        mean_is_below(reads.average, cfg.min_moisture),
{
}


/// The pulses of one tick never take more places than are free: with each
/// pulse that the scheduler starts, the valves that were on when the tick
/// began and the pulses of the tick together stay within the ceiling.
pub proof fn lemma_tick_stays_within_ceiling(
    mode: OperationMode,
    state: StateView,
    tick: Tick,
    ceiling: usize,
    zone: Seq<char>,
    cfg: ZoneConfig,
    reads: ZoneReads,
    now: Now,
    sent: bool,
)
    requires
        idle_verdict(mode, state, tick, ceiling as nat, zone, cfg, reads, now) is StartPulse,
    ensures
        ({
            let after = tick_after_publish(tick, true, sent);
            &&& after.base_active == tick.base_active
            &&& after.started_this_tick == if sent {
                tick.started_this_tick + 1
            } else {
                tick.started_this_tick as int
            }
            &&& after.base_active + after.started_this_tick <= ceiling
        }),
{
}

} // verus!
