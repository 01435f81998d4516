//! The supervisor policies: the grace period for bus errors, the fate of a
//! task that ends, the shutdown, and the watch over silent nodes.

use vstd::prelude::*;
use crate::ingest::{
    Now, emergency_all_off, in_step, lemma_same_zones_keep_step, state_after_all_off,
};
use crate::state::{EventKind, EventView, NodeView, StateView, SystemState};
use crate::table::{
    Table, has_key, index_of, keys_distinct, lemma_index_of, lemma_ops_distinct,
    lemma_push_lookup, lemma_without_key_others, with_entry, without_key,
};
use crate::text::{decimal, decimal_nat, push_int, push_nat, push_str};
use crate::valve::{PinWrite, ValveBoard, level_for, relays_all_off, writes_all_off};

verus! {

/// The seconds for which bus errors are borne while a valve is open.
pub const MQTT_GRACE_PERIOD_SEC: u64 = 60;

/// The seconds between two prunings of old readings.
pub const PRUNE_INTERVAL_SEC: u64 = 21600;

/// The days for which readings are kept.
pub const RETENTION_DAYS: i64 = 90;

/// The seconds between two looks at the nodes.
pub const HEARTBEAT_CHECK_INTERVAL_SEC: u64 = 60;

/// The minutes of silence after which a node counts as stale, unless set otherwise.
pub const DEFAULT_NODE_STALE_TIMEOUT_MIN: i64 = 10;

/// The run of bus errors that is under way, if any.
#[derive(Clone, Copy, Debug)]
pub struct ErrorStreak {
    /// When the first error of the run came, on the monotonic clock.
    pub first_error_at: Option<u64>,
    /// How many errors the run has.
    pub error_count: u32,
}

/// What was done about a bus error.
#[derive(Debug)]
pub enum GraceOutcome {
    /// The grace period is over with a valve open: everything was switched
    /// off, and these writes are to reach the pins.
    EmergencyOff { writes: Vec<PinWrite> },
    /// A valve is open and the grace period has this many seconds left.
    GraceActive { remaining_secs: u64 },
    /// No valve is open.
    NoValvesOpen,
}

impl ErrorStreak {
    /// No run of errors.
    pub fn new() -> (s: Self)
        ensures
            s.first_error_at is None,
            s.error_count == 0,
    {
        ErrorStreak { first_error_at: None, error_count: 0 }
    }
}

/// The streak after a packet came from the bus: any incoming packet but a
/// disconnect ends a run of errors.
pub open spec fn streak_after_packet(streak: ErrorStreak, incoming: bool, disconnect: bool) -> ErrorStreak {
    if incoming && !disconnect && streak.first_error_at is Some {
        ErrorStreak { first_error_at: None, error_count: 0 }
    } else {
        streak
    }
}

/// Takes note of a packet from the bus. Returns how many errors the run had
/// that the packet ended, if it ended one.
pub fn on_packet(streak: &mut ErrorStreak, incoming: bool, disconnect: bool) -> (recovered: Option<
    u32,
>)
    ensures
        *final(streak) == streak_after_packet(*old(streak), incoming, disconnect),
        recovered == if incoming && !disconnect && old(streak).first_error_at is Some {
            Some(old(streak).error_count)
        } else {
            None
        },
{
    if incoming && !disconnect && streak.first_error_at.is_some() {
        let n = streak.error_count;
        streak.first_error_at = None;
        streak.error_count = 0;
        Some(n)
    } else {
        None
    }
}

/// The streak with one more error at `now`.
pub open spec fn streak_with_error(streak: ErrorStreak, now: Now) -> ErrorStreak {
    ErrorStreak {
        first_error_at: match streak.first_error_at {
            Some(t) => Some(t),
            None => Some(now.mono_secs),
        },
        error_count: if streak.error_count < u32::MAX {
            (streak.error_count + 1) as u32
        } else {
            u32::MAX
        },
    }
}

/// The seconds that the run of errors has lasted at `now`.
pub open spec fn streak_age(streak: ErrorStreak, now: Now) -> u64 {
    match streak.first_error_at {
        Some(t) => if now.mono_secs >= t {
            (now.mono_secs - t) as u64
        } else {
            0
        },
        None => 0,
    }
}

/// The system event of the first bus error of a run.
pub open spec fn bus_error_text(error: Seq<char>) -> Seq<char> {
    "mqtt error: "@ + error
}

/// The reason of an emergency shutdown after the grace period.
pub open spec fn grace_expired_text(error: Seq<char>, count: u32) -> Seq<char> {
    "mqtt error: "@ + error + " ("@ + decimal_nat(MQTT_GRACE_PERIOD_SEC as nat)
        + "s grace period expired, "@ + decimal_nat(count as nat) + " consecutive errors)"@
}

/// The state once a bus error is noted: a bus that counted as connected
/// counts as down, with a system event; otherwise nothing changes.
pub open spec fn state_with_bus_error(state: StateView, error: Seq<char>, now: Now) -> StateView {
    if state.mqtt_connected {
        (StateView { mqtt_connected: false, ..state }).push_event(
            EventView { ts: now.unix_nanos, kind: EventKind::System, detail: bus_error_text(error) },
        )
    } else {
        state
    }
}

/// Whether a bus error at `now` ends the patience of the hub: a valve is
/// open, and the run of errors has lasted for the grace period.
pub open spec fn grace_expired(streak: ErrorStreak, state: StateView, now: Now) -> bool {
    state.active() > 0 && streak_age(streak_with_error(streak, now), now) >= MQTT_GRACE_PERIOD_SEC
}

/// Handles an error of the bus. The first error of a run starts the grace
/// period. While it lasts, nothing is done to the valves. Once it is over
/// and a valve is open, everything is switched off and the run starts anew.
pub fn on_bus_error(
    streak: &mut ErrorStreak,
    error: &str,
    valves: &mut ValveBoard,
    valve_opened_at: &mut Table<u64>,
    shared: &mut SystemState,
    now: Now,
) -> (outcome: GraceOutcome)
    ensures
        ({
            let run = streak_with_error(*old(streak), now);
            let noted = state_with_bus_error(old(shared)@, error@, now);
            if grace_expired(*old(streak), old(shared)@, now) {
                &&& outcome matches GraceOutcome::EmergencyOff { writes }
                &&& writes@ == writes_all_off(old(valves)@.relays, old(valves)@.active_low)
                &&& final(valves)@.relays == relays_all_off(old(valves)@.relays)
                &&& final(valve_opened_at).rows().len() == 0
                &&& final(shared)@ == state_after_all_off(
                    noted,
                    grace_expired_text(error@, run.error_count),
                    now,
                )
                &&& final(shared)@.active() == 0
                &&& final(streak).first_error_at is None
                &&& final(streak).error_count == 0
            } else {
                &&& final(valves)@ == old(valves)@
                &&& final(valve_opened_at).rows() == old(valve_opened_at).rows()
                &&& final(shared)@ == noted
                &&& *final(streak) == run
                &&& outcome == if old(shared)@.active() > 0 {
                    GraceOutcome::GraceActive {
                        remaining_secs: (MQTT_GRACE_PERIOD_SEC - streak_age(run, now)) as u64,
                    }
                } else {
                    GraceOutcome::NoValvesOpen
                }
            }
        }),
        final(valves)@.active_low == old(valves)@.active_low,
        old(valve_opened_at).wf() ==> final(valve_opened_at).wf(),
        old(shared)@.wf() ==> final(shared)@.wf(),
        final(shared)@.active() <= old(shared)@.active(),
        in_step(old(valves)@, old(valve_opened_at).rows(), old(shared)@) ==> in_step(
            final(valves)@,
            final(valve_opened_at).rows(),
            final(shared)@,
        ),
{
    if streak.error_count < 0xffff_ffff {
        streak.error_count = streak.error_count + 1;
    }
    let first = match streak.first_error_at {
        Some(t) => t,
        None => {
            streak.first_error_at = Some(now.mono_secs);
            now.mono_secs
        },
    };
    let age: u64 = if now.mono_secs >= first { now.mono_secs - first } else { 0 };
    if shared.mqtt_connected() {
        shared.set_mqtt_connected(false);
        let mut text: String = String::new();
        push_str(&mut text, "mqtt error: ");
        push_str(&mut text, error);
        shared.record_system_at(now.unix_nanos, text);
    }
    let has_open_valves = shared.active_zones() > 0;
    if has_open_valves && age >= MQTT_GRACE_PERIOD_SEC {
        let mut reason: String = String::new();
        push_str(&mut reason, "mqtt error: ");
        push_str(&mut reason, error);
        push_str(&mut reason, " (");
        push_nat(&mut reason, MQTT_GRACE_PERIOD_SEC as u128);
        push_str(&mut reason, "s grace period expired, ");
        push_nat(&mut reason, streak.error_count as u128);
        push_str(&mut reason, " consecutive errors)");
        assert(reason@ =~= grace_expired_text(error@, streak.error_count));
        let writes = emergency_all_off(valves, valve_opened_at, shared, reason.as_str(), now);
        streak.first_error_at = None;
        streak.error_count = 0;
        GraceOutcome::EmergencyOff { writes }
    } else {
        proof {
            if in_step(old(valves)@, old(valve_opened_at).rows(), old(shared)@) {
                lemma_same_zones_keep_step(
                    old(valves)@,
                    old(valve_opened_at).rows(),
                    old(shared)@,
                    shared@,
                );
            }
        }
        if has_open_valves {
            GraceOutcome::GraceActive { remaining_secs: MQTT_GRACE_PERIOD_SEC - age }
        } else {
            GraceOutcome::NoValvesOpen
        }
    }
}

/// The tasks that the supervisor starts.
#[derive(Clone, Copy, Debug, PartialEq, Eq, Structural)]
pub enum Task {
    Web,
    Watchdog,
    Pruner,
    Backup,
    Scheduler,
    Heartbeat,
}

/// Whether the hub may go on without the task: it may not go on without the
/// scheduler or the watchdog.
pub open spec fn safety_critical(task: Task) -> bool {
    task is Scheduler || task is Watchdog
}

/// What the end of a task means: the reason to shut down, or `None` where
/// the hub goes on without the task.
pub fn on_task_exit(task: Task) -> (reason: Option<&'static str>)
    ensures
        reason is Some <==> safety_critical(task),
        task is Watchdog ==> reason->0@ == "watchdog task died"@,
        task is Scheduler ==> reason->0@ == "scheduler task died"@,
{
    match task {
        Task::Watchdog => Some("watchdog task died"),
        Task::Scheduler => Some("scheduler task died"),
        _ => None,
    }
}

/// The reason that a shutdown gives for switching everything off.
pub open spec fn shutdown_text(exit_reason: Seq<char>) -> Seq<char> {
    "shutdown: "@ + exit_reason
}

/// Shuts the valves down for good: every relay off, every stamp gone, every
/// zone off in the state. Returns the writes that drive every pin to the
/// level at which it is off.
pub fn shutdown(
    valves: &mut ValveBoard,
    valve_opened_at: &mut Table<u64>,
    shared: &mut SystemState,
    exit_reason: &str,
    now: Now,
) -> (writes: Vec<PinWrite>)
    ensures
        final(valves)@.relays == relays_all_off(old(valves)@.relays),
        final(valves)@.active_low == old(valves)@.active_low,
        writes@ == writes_all_off(old(valves)@.relays, old(valves)@.active_low),
        final(valve_opened_at).rows().len() == 0,
        final(shared)@ == state_after_all_off(old(shared)@, shutdown_text(exit_reason@), now),
        final(shared)@.active() == 0,
        old(shared)@.wf() ==> final(shared)@.wf(),
        forall|i: int|
            0 <= i < final(valves)@.relays.len() ==> !(#[trigger] final(valves)@.relays[i]).1.on,
        writes@.len() == old(valves)@.relays.len(),
        forall|i: int|
            0 <= i < writes@.len() ==> (#[trigger] writes@[i]).gpio_pin == old(valves)@.relays[i].1.gpio_pin
                && writes@[i].high == level_for(false, old(valves)@.active_low),
        in_step(final(valves)@, final(valve_opened_at).rows(), final(shared)@),
{
    let mut reason: String = String::new();
    push_str(&mut reason, "shutdown: ");
    push_str(&mut reason, exit_reason);
    emergency_all_off(valves, valve_opened_at, shared, reason.as_str(), now)
}

/// Notes that the bus is connected.
pub fn on_connected(shared: &mut SystemState, now: Now)
    ensures
        final(shared)@ == (StateView { mqtt_connected: true, ..old(shared)@ }).push_event(
            EventView { ts: now.unix_nanos, kind: EventKind::System, detail: "mqtt connected"@ },
        ),
        old(shared)@.wf() ==> final(shared)@.wf(),
        final(shared)@.zones == old(shared)@.zones,
{
    shared.set_mqtt_connected(true);
    let mut text: String = String::new();
    push_str(&mut text, "mqtt connected");
    shared.record_system_at(now.unix_nanos, text);
}

/// Notes that the bus has disconnected.
pub fn on_disconnected(shared: &mut SystemState, now: Now)
    ensures
        final(shared)@ == (StateView { mqtt_connected: false, ..old(shared)@ }).push_event(
            EventView { ts: now.unix_nanos, kind: EventKind::System, detail: "mqtt disconnected"@ },
        ),
        old(shared)@.wf() ==> final(shared)@.wf(),
        final(shared)@.zones == old(shared)@.zones,
{
    shared.set_mqtt_connected(false);
    let mut text: String = String::new();
    push_str(&mut text, "mqtt disconnected");
    shared.record_system_at(now.unix_nanos, text);
}

/// The nanoseconds in a minute.
pub const NANOS_PER_MINUTE: i128 = 60_000_000_000;

/// Whether a node that was last seen at `last_seen` has been silent for
/// longer than `timeout_min` minutes.
pub open spec fn node_is_stale(last_seen: i128, timeout_min: i64, now: Now) -> bool {
    now.unix_nanos - last_seen > timeout_min * NANOS_PER_MINUTE
}

/// `x` held within the range of `i64`.
pub open spec fn held_i64(x: int) -> i64 {
    if x > i64::MAX {
        i64::MAX
    } else if x < i64::MIN {
        i64::MIN
    } else {
        x as i64
    }
}

/// The whole minutes in a span of nanoseconds, rounded towards zero.
pub open spec fn whole_minutes(nanos: int) -> int {
    if nanos >= 0 {
        nanos / (NANOS_PER_MINUTE as int)
    } else {
        -((-nanos) / (NANOS_PER_MINUTE as int))
    }
}

/// The whole minutes for which a node has been silent, as the event says them.
pub open spec fn silent_minutes(last_seen: i128, now: Now) -> i64 {
    held_i64(whole_minutes(now.unix_nanos - last_seen))
}

/// The error event of a node that has gone stale.
pub open spec fn stale_text(node: Seq<char>, minutes: i64) -> Seq<char> {
    "node "@ + node + " stale — last seen "@ + decimal(minutes as int) + " min ago"@
}

/// The system event of a node that is heard of again.
pub open spec fn recovered_text(node: Seq<char>) -> Seq<char> {
    "node "@ + node + " recovered from stale state"@
}

/// What a look at the nodes has come to so far.
pub ghost struct Beat {
    pub state: StateView,
    /// The nodes of which the ring already says that they are stale.
    pub warned: Seq<(Seq<char>, ())>,
}

/// The look after one more node, in the round that finds stale nodes: a
/// stale node that was not reported yet is reported once.
pub open spec fn stale_one(b: Beat, node: (Seq<char>, NodeView), timeout_min: i64, now: Now) -> Beat {
    if node_is_stale(node.1.last_seen, timeout_min, now) && !has_key(b.warned, node.0) {
        Beat {
            state: b.state.push_event(
                EventView {
                    ts: now.unix_nanos,
                    kind: EventKind::Error,
                    detail: stale_text(node.0, silent_minutes(node.1.last_seen, now)),
                },
            ),
            warned: b.warned.push((node.0, ())),
        }
    } else {
        b
    }
}

/// The look after one more node, in the round that finds recovered nodes: a
/// node that was reported stale and is heard of again is reported once.
pub open spec fn recovered_one(b: Beat, node: (Seq<char>, NodeView), timeout_min: i64, now: Now) -> Beat {
    if !node_is_stale(node.1.last_seen, timeout_min, now) && has_key(b.warned, node.0) {
        Beat {
            state: b.state.push_event(
                EventView {
                    ts: now.unix_nanos,
                    kind: EventKind::System,
                    detail: recovered_text(node.0),
                },
            ),
            warned: without_key(b.warned, node.0),
        }
    } else {
        b
    }
}

/// The round that finds stale nodes, over all nodes in their order.
pub open spec fn stale_all(b: Beat, nodes: Seq<(Seq<char>, NodeView)>, timeout_min: i64, now: Now) -> Beat
    decreases nodes.len(),
{
    if nodes.len() == 0 {
        b
    } else {
        stale_one(stale_all(b, nodes.drop_last(), timeout_min, now), nodes.last(), timeout_min, now)
    }
}

/// The round that finds recovered nodes, over all nodes in their order.
pub open spec fn recovered_all(
    b: Beat,
    nodes: Seq<(Seq<char>, NodeView)>,
    timeout_min: i64,
    now: Now,
) -> Beat
    decreases nodes.len(),
{
    if nodes.len() == 0 {
        b
    } else {
        recovered_one(
            recovered_all(b, nodes.drop_last(), timeout_min, now),
            nodes.last(),
            timeout_min,
            now,
        )
    }
}

/// `a - b`, held within the range of `i128`.
fn span(a: i128, b: i128) -> (d: i128)
    ensures
        d == if a - b > i128::MAX {
            i128::MAX
        } else if a - b < i128::MIN {
            i128::MIN
        } else {
            (a - b) as i128
        },
{
    if b >= 0 {
        if a < -0x8000_0000_0000_0000_0000_0000_0000_0000 + b {
            -0x8000_0000_0000_0000_0000_0000_0000_0000
        } else {
            a - b
        }
    } else {
        if a > 0x7fff_ffff_ffff_ffff_ffff_ffff_ffff_ffff + b {
            0x7fff_ffff_ffff_ffff_ffff_ffff_ffff_ffff
        } else {
            a - b
        }
    }
}

fn minutes_of(last_seen: i128, now: Now) -> (m: i64)
    ensures
        m == silent_minutes(last_seen, now),
{
    let d = span(now.unix_nanos, last_seen);
    let whole: i128 = if d >= 0 {
        d / NANOS_PER_MINUTE
    } else if d == -0x8000_0000_0000_0000_0000_0000_0000_0000 {
        -0x7fff_ffff_ffff_ffff_ffff_ffff_ffff_ffff / NANOS_PER_MINUTE
    } else {
        -((-d) / NANOS_PER_MINUTE)
    };
    if whole > 0x7fff_ffff_ffff_ffff {
        0x7fff_ffff_ffff_ffff
    } else if whole < -0x8000_0000_0000_0000 {
        -0x8000_0000_0000_0000
    } else {
        whole as i64
    }
}

fn is_stale(last_seen: i128, timeout_min: i64, now: Now) -> (stale: bool)
    ensures
        stale == node_is_stale(last_seen, timeout_min, now),
{
    span(now.unix_nanos, last_seen) > timeout_min as i128 * NANOS_PER_MINUTE
}

/// Looks at every node: one that has been silent for longer than
/// `stale_timeout_min` minutes is reported as stale, once; one that was
/// reported and is heard of again is reported as recovered, once. The stale
/// nodes are reported first. No valve is touched.
pub fn heartbeat_check(
    shared: &mut SystemState,
    warned_stale: &mut Table<()>,
    stale_timeout_min: i64,
    now: Now,
)
    ensures
        ({
            let found = stale_all(
                Beat { state: old(shared)@, warned: old(warned_stale).rows() },
                old(shared)@.nodes,
                stale_timeout_min,
                now,
            );
            let done = recovered_all(found, old(shared)@.nodes, stale_timeout_min, now);
            &&& final(shared)@ == done.state
            &&& final(warned_stale).rows() == done.warned
        }),
        final(shared)@.zones == old(shared)@.zones,
        old(warned_stale).wf() ==> final(warned_stale).wf(),
        old(shared)@.wf() ==> final(shared)@.wf(),
{
    let seen = shared.last_seen_list();
    let ghost nodes = old(shared)@.nodes;
    let ghost start = Beat { state: old(shared)@, warned: old(warned_stale).rows() };
    let mut i: usize = 0;
    while i < seen.len()
        invariant
            i <= seen@.len() == nodes.len(),
            forall|j: int|
                0 <= j < seen@.len() ==> (#[trigger] seen@[j]).0@ == nodes[j].0 && seen@[j].1
                    == nodes[j].1.last_seen,
            (Beat { state: shared@, warned: warned_stale.rows() }) == stale_all(
                start,
                nodes.take(i as int),
                stale_timeout_min,
                now,
            ),
            shared@.zones == old(shared)@.zones,
            old(shared)@.wf() ==> shared@.wf(),
            old(warned_stale).wf() ==> warned_stale.wf(),
        decreases seen@.len() - i,
    {
        proof {
            assert(nodes.take(i + 1).drop_last() =~= nodes.take(i as int));
            assert(nodes.take(i + 1).last() == nodes[i as int]);
        }
        let node = seen[i].0.as_str();
        let last_seen = seen[i].1;
        if is_stale(last_seen, stale_timeout_min, now) && !warned_stale.contains_key(node) {
            let mut text: String = String::new();
            push_str(&mut text, "node ");
            push_str(&mut text, node);
            push_str(&mut text, " stale — last seen ");
            push_int(&mut text, minutes_of(last_seen, now));
            push_str(&mut text, " min ago");
            assert(text@ =~= stale_text(node@, silent_minutes(last_seen, now)));
            shared.record_error_at(now.unix_nanos, text);
            warned_stale.push_row(node, ());
        }
        i += 1;
    }
    assert(nodes.take(nodes.len() as int) =~= nodes);
    let ghost found = Beat { state: shared@, warned: warned_stale.rows() };
    let mut k: usize = 0;
    while k < seen.len()
        invariant
            k <= seen@.len() == nodes.len(),
            forall|j: int|
                0 <= j < seen@.len() ==> (#[trigger] seen@[j]).0@ == nodes[j].0 && seen@[j].1
                    == nodes[j].1.last_seen,
            (Beat { state: shared@, warned: warned_stale.rows() }) == recovered_all(
                found,
                nodes.take(k as int),
                stale_timeout_min,
                now,
            ),
            shared@.zones == old(shared)@.zones,
            old(shared)@.wf() ==> shared@.wf(),
            old(warned_stale).wf() ==> warned_stale.wf(),
        decreases seen@.len() - k,
    {
        proof {
            assert(nodes.take(k + 1).drop_last() =~= nodes.take(k as int));
            assert(nodes.take(k + 1).last() == nodes[k as int]);
        }
        let node = seen[k].0.as_str();
        let last_seen = seen[k].1;
        if !is_stale(last_seen, stale_timeout_min, now) && warned_stale.contains_key(node) {
            let mut text: String = String::new();
            push_str(&mut text, "node ");
            push_str(&mut text, node);
            push_str(&mut text, " recovered from stale state");
            assert(text@ =~= recovered_text(node@));
            shared.record_system_at(now.unix_nanos, text);
            let _ = warned_stale.take(node);
        }
        k += 1;
    }
    assert(nodes.take(nodes.len() as int) =~= nodes);
}

/// Whether the node at place `j` is stale.
pub open spec fn stale_at(nodes: Seq<(Seq<char>, NodeView)>, j: int, timeout_min: i64, now: Now) -> bool {
    node_is_stale(nodes[j].1.last_seen, timeout_min, now)
}

/// What the round that finds stale nodes does to the list of reported nodes:
/// every stale node is on it afterwards, and nothing else is new on it.
proof fn lemma_stale_all(b0: Beat, nodes: Seq<(Seq<char>, NodeView)>, timeout_min: i64, now: Now)
    requires
        keys_distinct(b0.warned),
    ensures
        ({
            let b = stale_all(b0, nodes, timeout_min, now);
            &&& keys_distinct(b.warned)
            &&& forall|z: Seq<char>| has_key(b0.warned, z) ==> #[trigger] has_key(b.warned, z)
            &&& forall|j: int|
                0 <= j < nodes.len() && #[trigger] stale_at(nodes, j, timeout_min, now) ==> has_key(
                    b.warned,
                    nodes[j].0,
                )
            &&& forall|z: Seq<char>| #[trigger]
                has_key(b.warned, z) ==> has_key(b0.warned, z) || exists|j: int|
                    0 <= j < nodes.len() && nodes[j].0 == z && #[trigger] stale_at(
                        nodes,
                        j,
                        timeout_min,
                        now,
                    )
        }),
    decreases nodes.len(),
{
    if nodes.len() > 0 {
        let front = nodes.drop_last();
        let node = nodes.last();
        let last = nodes.len() - 1;
        lemma_stale_all(b0, front, timeout_min, now);
        let p = stale_all(b0, front, timeout_min, now);
        let b = stale_one(p, node, timeout_min, now);
        assert(b == stale_all(b0, nodes, timeout_min, now));
        assert forall|j: int| 0 <= j < front.len() implies stale_at(front, j, timeout_min, now)
            == stale_at(nodes, j, timeout_min, now) by {
            assert(front[j] == nodes[j]);
        }
        let added = node_is_stale(node.1.last_seen, timeout_min, now) && !has_key(p.warned, node.0);
        if added {
            lemma_ops_distinct(p.warned, node.0, ());
            assert(b.warned == with_entry(p.warned, node.0, ()));
        }
        assert forall|z: Seq<char>| has_key(b0.warned, z) implies #[trigger] has_key(
            b.warned,
            z,
        ) by {
            assert(has_key(p.warned, z));
            if added {
                lemma_push_lookup(p.warned, (node.0, ()), z);
            }
        }
        assert forall|j: int|
            0 <= j < nodes.len() && #[trigger] stale_at(nodes, j, timeout_min, now) implies has_key(
            b.warned,
            nodes[j].0,
        ) by {
            if added {
                lemma_push_lookup(p.warned, (node.0, ()), nodes[j].0);
            }
            if j < last {
                assert(stale_at(front, j, timeout_min, now));
                assert(has_key(p.warned, front[j].0));
            }
        }
        assert forall|z: Seq<char>| #[trigger] has_key(b.warned, z) implies has_key(b0.warned, z)
            || exists|j: int|
            0 <= j < nodes.len() && nodes[j].0 == z && #[trigger] stale_at(
                nodes,
                j,
                timeout_min,
                now,
            ) by {
            if added {
                lemma_push_lookup(p.warned, (node.0, ()), z);
            }
            if has_key(p.warned, z) {
                if !has_key(b0.warned, z) {
                    let j = choose|j: int|
                        0 <= j < front.len() && front[j].0 == z && #[trigger] stale_at(
                            front,
                            j,
                            timeout_min,
                            now,
                        );
                    assert(nodes[j].0 == z && stale_at(nodes, j, timeout_min, now));
                }
            } else {
                assert(nodes[last].0 == z && stale_at(nodes, last, timeout_min, now));
            }
        }
    }
}

/// What the round that finds recovered nodes does to the list of reported
/// nodes: no node that is heard of again is on it afterwards, and nothing
/// else has left it.
proof fn lemma_recovered_all(b0: Beat, nodes: Seq<(Seq<char>, NodeView)>, timeout_min: i64, now: Now)
    requires
        keys_distinct(b0.warned),
    ensures
        ({
            let b = recovered_all(b0, nodes, timeout_min, now);
            &&& keys_distinct(b.warned)
            &&& forall|z: Seq<char>| #[trigger] has_key(b.warned, z) ==> has_key(b0.warned, z)
            &&& forall|j: int|
                0 <= j < nodes.len() && !#[trigger] stale_at(nodes, j, timeout_min, now)
                    ==> !has_key(b.warned, nodes[j].0)
            &&& forall|z: Seq<char>|
                has_key(b0.warned, z) && !#[trigger] has_key(b.warned, z) ==> exists|j: int|
                    0 <= j < nodes.len() && nodes[j].0 == z && !#[trigger] stale_at(
                        nodes,
                        j,
                        timeout_min,
                        now,
                    )
        }),
    decreases nodes.len(),
{
    if nodes.len() > 0 {
        let front = nodes.drop_last();
        let node = nodes.last();
        let last = nodes.len() - 1;
        lemma_recovered_all(b0, front, timeout_min, now);
        let p = recovered_all(b0, front, timeout_min, now);
        let b = recovered_one(p, node, timeout_min, now);
        assert(b == recovered_all(b0, nodes, timeout_min, now));
        assert forall|j: int| 0 <= j < front.len() implies stale_at(front, j, timeout_min, now)
            == stale_at(nodes, j, timeout_min, now) by {
            assert(front[j] == nodes[j]);
        }
        lemma_ops_distinct(p.warned, node.0, ());
        assert forall|z: Seq<char>| #[trigger] has_key(b.warned, z) implies has_key(
            b0.warned,
            z,
        ) by {
            lemma_without_key_others(p.warned, node.0, z);
        }
        assert forall|j: int|
            0 <= j < nodes.len() && !#[trigger] stale_at(nodes, j, timeout_min, now)
                implies !has_key(b.warned, nodes[j].0) by {
            lemma_without_key_others(p.warned, node.0, nodes[j].0);
            if j < last {
                assert(!stale_at(front, j, timeout_min, now));
                assert(!has_key(p.warned, front[j].0));
            }
        }
        assert forall|z: Seq<char>| has_key(b0.warned, z) && !#[trigger] has_key(b.warned, z)
            implies exists|j: int|
            0 <= j < nodes.len() && nodes[j].0 == z && !#[trigger] stale_at(
                nodes,
                j,
                timeout_min,
                now,
            ) by {
            lemma_without_key_others(p.warned, node.0, z);
            if has_key(p.warned, z) {
                assert(nodes[last].0 == z && !stale_at(nodes, last, timeout_min, now));
            } else {
                let j = choose|j: int|
                    0 <= j < front.len() && front[j].0 == z && !#[trigger] stale_at(
                        front,
                        j,
                        timeout_min,
                        now,
                    );
                assert(nodes[j].0 == z && !stale_at(nodes, j, timeout_min, now));
            }
        }
    }
}

/// After a look at the nodes, the nodes that are on the list of reported
/// nodes are exactly the stale ones; a name on the list that is no node
/// stays on it, and no other name comes onto it.
pub proof fn lemma_heartbeat_lists_the_stale(
    state: StateView,
    warned: Seq<(Seq<char>, ())>,
    timeout_min: i64,
    now: Now,
    name: Seq<char>,
)
    requires
        keys_distinct(state.nodes),
        keys_distinct(warned),
    ensures
        ({
            let found = stale_all(Beat { state, warned }, state.nodes, timeout_min, now);
            let done = recovered_all(found, state.nodes, timeout_min, now);
            &&& keys_distinct(done.warned)
            &&& has_key(done.warned, name) <==> if has_key(state.nodes, name) {
                node_is_stale(
                    state.nodes[index_of(state.nodes, name)].1.last_seen,
                    timeout_min,
                    now,
                )
            } else {
                has_key(warned, name)
            }
        }),
{
    let nodes = state.nodes;
    let b0 = Beat { state, warned };
    lemma_stale_all(b0, nodes, timeout_min, now);
    let found = stale_all(b0, nodes, timeout_min, now);
    lemma_recovered_all(found, nodes, timeout_min, now);
    let done = recovered_all(found, nodes, timeout_min, now);
    lemma_index_of(nodes, name);
    if has_key(nodes, name) {
        let i = index_of(nodes, name);
        assert(nodes[i].0 == name);
        if stale_at(nodes, i, timeout_min, now) {
            assert(has_key(found.warned, name));
            if !has_key(done.warned, name) {
                let j = choose|j: int|
                    0 <= j < nodes.len() && nodes[j].0 == name && !#[trigger] stale_at(
                        nodes,
                        j,
                        timeout_min,
                        now,
                    );
                assert(j == i) by {
                    if j < i {
                        assert(nodes[j].0 != nodes[i].0);
                    } else if i < j {
                        assert(nodes[i].0 != nodes[j].0);
                    }
                }
            }
        } else {
            assert(!has_key(done.warned, nodes[i].0));
        }
    } else {
        if has_key(done.warned, name) {
            assert(has_key(found.warned, name));
            if !has_key(warned, name) {
                let j = choose|j: int|
                    0 <= j < nodes.len() && nodes[j].0 == name && #[trigger] stale_at(
                        nodes,
                        j,
                        timeout_min,
                        now,
                    );
                assert(has_key(nodes, name));
            }
        }
        if has_key(warned, name) {
            assert(has_key(found.warned, name));
            if !has_key(done.warned, name) {
                let j = choose|j: int|
                    0 <= j < nodes.len() && nodes[j].0 == name && !#[trigger] stale_at(
                        nodes,
                        j,
                        timeout_min,
                        now,
                    );
                assert(has_key(nodes, name));
            }
        }
    }
}

} // verus!
