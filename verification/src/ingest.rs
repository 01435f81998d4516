//! The ingest handlers: what a valve command, a telemetry message and a node
//! status message do to the hub.
//!
//! Each handler works on the state of the hub alone and hands back what has
//! to reach the outside: writes for the pins, changes for the store.

use vstd::prelude::*;
use crate::config::OperationMode;
use crate::db::{
    SensorConfig, WateringEventRow, WateringEventView, ZoneConfig, compute_moisture,
    is_reading_plausible, moisture_den, moisture_num, plausible,
};
use crate::level::Moisture;
use crate::mqtt::{
    Reading, ReadingMsg, parse_node_status, parse_valve_command, status_token_result,
    valve_token_result,
};
use crate::safety::{
    CounterRead, GateDecision, Limits, gate, limits_of, refusal_message, refusal_text,
    safety_gate,
};
use crate::state::{
    EventKind, EventView, ReadingView, SensorReading, StateView, SystemState, initial_zones,
    lemma_count_on_all_off, lemma_count_on_update, lemma_new_state_is_off,
    lemma_zone_after_valve, lemma_zones_all_off, readings_view, zones_after_valve,
};
use crate::table::{
    Table, has_key, index_of, keys_distinct, lemma_index_of, lemma_with_entry_keys,
    lemma_without_key_others, lookup, with_entry, without_key,
};
use crate::text::{
    decimal, decimal_nat, lossy_text, lowercase, push_int, push_nat, push_str, trimmed,
    uppercase,
};
use crate::valve::{
    BoardView, PinWrite, ValveBoard, initial_relays, lemma_new_board_is_off,
    lemma_relay_after_set, lemma_relays_all_off, level_for, relay_on, relays_after_set,
    relays_all_off, write_for_set, writes_all_off,
};

verus! {

/// One reading of the clocks, taken when a message or a tick is handled.
#[derive(Clone, Copy, Debug)]
pub struct Now {
    /// Whole seconds on a clock that never goes back, from any fixed origin.
    pub mono_secs: u64,
    /// Seconds since the Unix epoch.
    pub unix_secs: i64,
    /// Nanoseconds since the Unix epoch.
    pub unix_nanos: i128,
}

/// What a valve command asks of the outside.
#[derive(Debug)]
pub struct ValveOutcome {
    /// The level to drive the pin of the zone to.
    pub pin_write: Option<PinWrite>,
    /// Whether one pulse is to be added to the counters of the zone for today.
    pub add_pulse: bool,
    /// The seconds to add to the open seconds of the zone for today.
    pub open_seconds: Option<i64>,
    /// The watering to enter into the store.
    pub watering_event: Option<WateringEventRow>,
}

/// A `ValveOutcome` with its texts as characters.
pub ghost struct OutcomeView {
    pub pin_write: Option<PinWrite>,
    pub add_pulse: bool,
    pub open_seconds: Option<i64>,
    pub watering_event: Option<WateringEventView>,
}

impl View for ValveOutcome {
    type V = OutcomeView;

    open spec fn view(&self) -> OutcomeView {
        OutcomeView {
            pin_write: self.pin_write,
            add_pulse: self.add_pulse,
            open_seconds: self.open_seconds,
            watering_event: match self.watering_event {
                Some(e) => Some(e@),
                None => None,
            },
        }
    }
}

/// The outcome that asks for nothing.
pub open spec fn nothing_to_do() -> OutcomeView {
    OutcomeView { pin_write: None, add_pulse: false, open_seconds: None, watering_event: None }
}

/// The whole seconds from `since` to `now` on the monotonic clock: 0 where
/// `now` lies before `since`, and never more than an `i64` holds.
pub open spec fn seconds_between(since: u64, now: u64) -> i64 {
    if now < since {
        0
    } else if now - since > i64::MAX {
        i64::MAX
    } else {
        (now - since) as i64
    }
}

/// `a - b`, held within the range of `i64`.
pub open spec fn held_sub(a: i64, b: i64) -> i64 {
    if a - b > i64::MAX {
        i64::MAX
    } else if a - b < i64::MIN {
        i64::MIN
    } else {
        (a - b) as i64
    }
}

/// Whether the board, the stamps of the openings and the state are in step:
/// a valve is on exactly if its opening is stamped.
pub open spec fn in_step(board: BoardView, opened: Seq<(Seq<char>, u64)>, state: StateView) -> bool {
    forall|zone: Seq<char>|
        #![trigger has_key(opened, zone)]
        {
            &&& relay_on(board.relays, zone) == (has_key(board.relays, zone) && has_key(
                opened,
                zone,
            ))
            &&& state.zone_on(zone) == (has_key(state.zones, zone) && has_key(opened, zone))
        }
}

/// An event in the ring changes nothing about the valves.
pub proof fn lemma_event_keeps_step(
    board: BoardView,
    opened: Seq<(Seq<char>, u64)>,
    state: StateView,
    e: EventView,
)
    requires
        in_step(board, opened, state),
    ensures
        in_step(board, opened, state.push_event(e)),
{
    assert forall|zone: Seq<char>| #![trigger has_key(opened, zone)] {
        &&& relay_on(board.relays, zone) == (has_key(board.relays, zone) && has_key(opened, zone))
        &&& state.push_event(e).zone_on(zone) == (has_key(state.push_event(e).zones, zone)
            && has_key(opened, zone))
    } by {
        assert(state.zone_on(zone) == (has_key(state.zones, zone) && has_key(opened, zone)));
    }
}

/// A hub that has just started is in step: nothing is on, and nothing is stamped.
pub proof fn lemma_new_hub_in_step(pairs: Seq<(String, u8)>, board: BoardView, state: StateView)
    requires
        board.relays == initial_relays(pairs),
        state.zones == initial_zones(pairs),
    ensures
        in_step(board, Seq::empty(), state),
{
    let stamps = Seq::<(Seq<char>, u64)>::empty();
    assert forall|zone: Seq<char>| #![trigger has_key(stamps, zone)] {
        &&& relay_on(board.relays, zone) == (has_key(board.relays, zone) && has_key(stamps, zone))
        &&& state.zone_on(zone) == (has_key(state.zones, zone) && has_key(stamps, zone))
    } by {
        lemma_new_board_is_off(pairs, zone);
        lemma_new_state_is_off(pairs, zone);
    }
}

/// A change of the state that leaves the zones alone changes nothing about
/// the valves.
pub proof fn lemma_same_zones_keep_step(
    board: BoardView,
    opened: Seq<(Seq<char>, u64)>,
    before: StateView,
    after: StateView,
)
    requires
        in_step(board, opened, before),
        after.zones == before.zones,
    ensures
        in_step(board, opened, after),
{
    assert forall|zone: Seq<char>| #![trigger has_key(opened, zone)] {
        &&& relay_on(board.relays, zone) == (has_key(board.relays, zone) && has_key(opened, zone))
        &&& after.zone_on(zone) == (has_key(after.zones, zone) && has_key(opened, zone))
    } by {
        assert(before.zone_on(zone) == (has_key(before.zones, zone) && has_key(opened, zone)));
    }
}

/// Opening a valve with its stamp, and closing a valve with its stamp taken
/// away, keep board, stamps and state in step.
pub proof fn lemma_valve_keeps_step(
    board: BoardView,
    opened: Seq<(Seq<char>, u64)>,
    state: StateView,
    zone: Seq<char>,
    on: bool,
    now: Now,
)
    requires
        in_step(board, opened, state),
        keys_distinct(opened),
    ensures
        in_step(
            BoardView { relays: relays_after_set(board.relays, zone, on), ..board },
            if on {
                with_entry(opened, zone, now.mono_secs)
            } else {
                without_key(opened, zone)
            },
            state.record_valve(now.unix_nanos, zone, on),
        ),
{
    let relays = relays_after_set(board.relays, zone, on);
    let stamps = if on {
        with_entry(opened, zone, now.mono_secs)
    } else {
        without_key(opened, zone)
    };
    let after = state.record_valve(now.unix_nanos, zone, on);
    assert forall|other: Seq<char>| #![trigger has_key(stamps, other)] {
        &&& relay_on(relays, other) == (has_key(relays, other) && has_key(stamps, other))
        &&& after.zone_on(other) == (has_key(after.zones, other) && has_key(stamps, other))
    } by {
        lemma_relay_after_set(board.relays, zone, on, other);
        lemma_zone_after_valve(state, now.unix_nanos, zone, on, other);
        lemma_with_entry_keys(opened, zone, now.mono_secs, other);
        lemma_without_key_others(opened, zone, other);
        assert(relay_on(board.relays, other) == (has_key(board.relays, other) && has_key(
            opened,
            other,
        )));
        assert(state.zone_on(other) == (has_key(state.zones, other) && has_key(opened, other)));
    }
}

/// With everything switched off and no stamp left, board, stamps and state
/// are in step.
pub proof fn lemma_all_off_is_in_step(board: BoardView, state: StateView, now: i128)
    ensures
        in_step(
            BoardView { relays: relays_all_off(board.relays), ..board },
            Seq::empty(),
            state.set_all_zones_off(now),
        ),
{
    let stamps = Seq::<(Seq<char>, u64)>::empty();
    assert forall|zone: Seq<char>| #![trigger has_key(stamps, zone)] {
        &&& relay_on(relays_all_off(board.relays), zone) == (has_key(
            relays_all_off(board.relays),
            zone,
        ) && has_key(stamps, zone))
        &&& state.set_all_zones_off(now).zone_on(zone) == (has_key(
            state.set_all_zones_off(now).zones,
            zone,
        ) && has_key(stamps, zone))
    } by {
        lemma_relays_all_off(board.relays, zone);
        lemma_zones_all_off(state, now, zone);
    }
}

/// The decision of the safety gate on the state of the hub.
pub open spec fn open_decision(
    state: StateView,
    zone_configs: Seq<(Seq<char>, ZoneConfig)>,
    zone: Seq<char>,
    ceiling: nat,
    counters: CounterRead,
) -> GateDecision {
    gate(state.zone_on(zone), state.active(), ceiling, limits_of(lookup(zone_configs, zone)), counters)
}

/// What an ON command does. Where the safety gate grants, the relay is set, the
/// opening is stamped, the state shows the valve on, and the outside is asked
/// to drive the pin and to count one pulse. Where it refuses, nothing changes
/// but the ring, which gets the reason as an error.
pub open spec fn open_post(
    zone: Seq<char>,
    zone_configs: Seq<(Seq<char>, ZoneConfig)>,
    counters: CounterRead,
    ceiling: nat,
    now: Now,
    board: BoardView,
    board_after: BoardView,
    opened: Seq<(Seq<char>, u64)>,
    opened_after: Seq<(Seq<char>, u64)>,
    state: StateView,
    state_after: StateView,
    out: OutcomeView,
) -> bool {
    let d = open_decision(state, zone_configs, zone, ceiling, counters);
    if d is Grant {
        &&& board_after.relays == relays_after_set(board.relays, zone, true)
        &&& board_after.active_low == board.active_low
        &&& opened_after == with_entry(opened, zone, now.mono_secs)
        &&& state_after == state.record_valve(now.unix_nanos, zone, true)
        &&& out == OutcomeView {
            pin_write: write_for_set(board.relays, board.active_low, zone, true),
            add_pulse: true,
            open_seconds: None,
            watering_event: None,
        }
    } else {
        &&& board_after == board
        &&& opened_after == opened
        &&& state_after == state.push_event(
            EventView {
                ts: now.unix_nanos,
                kind: EventKind::Error,
                detail: refusal_text(zone, d, ceiling),
            },
        )
        &&& out == nothing_to_do()
    }
}

/// The watering that an OFF command enters for a valve that was open for `secs` seconds.
pub open spec fn manual_watering(zone: Seq<char>, secs: i64, now: Now) -> WateringEventView {
    WateringEventView {
        ts_start: held_sub(now.unix_secs, secs),
        ts_end: now.unix_secs,
        zone_id: zone,
        reason: "manual_command"@,
        result: "ok"@,
    }
}

/// What an OFF command does. The relay is cleared and the state shows the
/// valve off. Where an opening was stamped, the stamp is taken away, and the
/// outside is asked to add the seconds since then to the open seconds of the
/// day and to enter the watering.
pub open spec fn close_post(
    zone: Seq<char>,
    now: Now,
    board: BoardView,
    board_after: BoardView,
    opened: Seq<(Seq<char>, u64)>,
    opened_after: Seq<(Seq<char>, u64)>,
    state: StateView,
    state_after: StateView,
    out: OutcomeView,
) -> bool {
    &&& board_after.relays == relays_after_set(board.relays, zone, false)
    &&& board_after.active_low == board.active_low
    &&& opened_after == without_key(opened, zone)
    &&& state_after == state.record_valve(now.unix_nanos, zone, false)
    &&& out == match lookup(opened, zone) {
        Some(since) => OutcomeView {
            pin_write: write_for_set(board.relays, board.active_low, zone, false),
            add_pulse: false,
            open_seconds: Some(seconds_between(since, now.mono_secs)),
            watering_event: Some(
                manual_watering(zone, seconds_between(since, now.mono_secs), now),
            ),
        },
        None => OutcomeView {
            pin_write: write_for_set(board.relays, board.active_low, zone, false),
            add_pulse: false,
            open_seconds: None,
            watering_event: None,
        },
    }
}

/// Setting the valve of a zone that was off to on adds at most one to the
/// zones that are on; setting any valve to off adds none.
pub proof fn lemma_active_after_valve(state: StateView, now: i128, zone: Seq<char>, on: bool)
    ensures
        !on ==> state.record_valve(now, zone, on).active() <= state.active(),
        on && !state.zone_on(zone) ==> state.record_valve(now, zone, on).active() <= state.active()
            + 1,
        state.record_valve(now, zone, on).zones.len() == state.zones.len(),
{
    lemma_index_of(state.zones, zone);
    let after = zones_after_valve(state.zones, now, zone, on);
    if has_key(state.zones, zone) {
        let i = index_of(state.zones, zone);
        lemma_count_on_update(state.zones, i, after[i]);
    }
}

fn seconds_since(since: u64, now: u64) -> (secs: i64)
    ensures
        secs == seconds_between(since, now),
{
    if now < since {
        0
    } else if now - since > 0x7fff_ffff_ffff_ffff {
        0x7fff_ffff_ffff_ffff
    } else {
        (now - since) as i64
    }
}

fn sub_held(a: i64, b: i64) -> (r: i64)
    ensures
        r == held_sub(a, b),
{
    let d: i128 = a as i128 - b as i128;
    if d > 0x7fff_ffff_ffff_ffff {
        0x7fff_ffff_ffff_ffff
    } else if d < -0x8000_0000_0000_0000 {
        -0x8000_0000_0000_0000
    } else {
        d as i64
    }
}

/// Whether a pulse that is counted stays within the daily caps of the zone:
/// with the pulse counted the zone has no more pulses than it may have in a
/// day, and at the opening it was below its open seconds of the day. Where
/// the counters could not be read or the zone has no settings nothing is known.
pub open spec fn pulse_within_caps(limits: Option<Limits>, counters: CounterRead) -> bool {
    match (limits, counters) {
        (Some(l), CounterRead::Known { pulses, open_sec }) => pulses + 1 <= l.max_pulses_per_day
            && open_sec < l.max_open_sec_per_day,
        _ => true,
    }
}

/// Handles an ON command: asks the safety gate and, where it grants, opens the valve.
pub fn open_valve(
    zone_id: &str,
    zone_configs: &Table<ZoneConfig>,
    valves: &mut ValveBoard,
    valve_opened_at: &mut Table<u64>,
    counters: CounterRead,
    shared: &mut SystemState,
    max_concurrent_valves: usize,
    now: Now,
) -> (out: ValveOutcome)
    ensures
        open_post(
            zone_id@,
            zone_configs.rows(),
            counters,
            max_concurrent_valves as nat,
            now,
            old(valves)@,
            final(valves)@,
            old(valve_opened_at).rows(),
            final(valve_opened_at).rows(),
            old(shared)@,
            final(shared)@,
            out@,
        ),
        old(valve_opened_at).wf() ==> final(valve_opened_at).wf(),
        old(shared)@.active() <= max_concurrent_valves ==> final(shared)@.active()
            <= max_concurrent_valves,
        old(shared)@.wf() ==> final(shared)@.wf(),
        out@.add_pulse ==> pulse_within_caps(
            limits_of(lookup(zone_configs.rows(), zone_id@)),
            counters,
        ),
        old(valve_opened_at).wf() && in_step(old(valves)@, old(valve_opened_at).rows(), old(shared)@)
            ==> in_step(final(valves)@, final(valve_opened_at).rows(), final(shared)@),
{
    let zone_on = shared.zone_is_on(zone_id);
    let active = shared.active_zones();
    let limits = match zone_configs.get(zone_id) {
        Some(c) => Some(
            Limits {
                max_pulses_per_day: c.max_pulses_per_day,
                max_open_sec_per_day: c.max_open_sec_per_day,
            },
        ),
        None => None,
    };
    let d = safety_gate(zone_on, active, max_concurrent_valves, limits, counters);
    proof {
        lemma_active_after_valve(old(shared)@, now.unix_nanos, zone_id@, true);
        if old(valve_opened_at).wf() && in_step(
            old(valves)@,
            old(valve_opened_at).rows(),
            old(shared)@,
        ) {
            lemma_valve_keeps_step(
                old(valves)@,
                old(valve_opened_at).rows(),
                old(shared)@,
                zone_id@,
                true,
                now,
            );
            lemma_event_keeps_step(
                old(valves)@,
                old(valve_opened_at).rows(),
                old(shared)@,
                EventView {
                    ts: now.unix_nanos,
                    kind: EventKind::Error,
                    detail: refusal_text(zone_id@, d, max_concurrent_valves as nat),
                },
            );
        }
    }
    match d {
        GateDecision::Grant => {
            let write = valves.set(zone_id, true);
            valve_opened_at.put(zone_id, now.mono_secs);
            shared.record_valve_at(now.unix_nanos, zone_id, true);
            ValveOutcome {
                pin_write: write,
                add_pulse: true,
                open_seconds: None,
                watering_event: None,
            }
        },
        _ => {
            let msg = refusal_message(zone_id, d, max_concurrent_valves);
            shared.record_error_at(now.unix_nanos, msg);
            ValveOutcome {
                pin_write: None,
                add_pulse: false,
                open_seconds: None,
                watering_event: None,
            }
        },
    }
}

/// Handles an OFF command: closes the valve and accounts for the time it was open.
pub fn close_valve(
    zone_id: &str,
    valves: &mut ValveBoard,
    valve_opened_at: &mut Table<u64>,
    shared: &mut SystemState,
    now: Now,
) -> (out: ValveOutcome)
    ensures
        close_post(
            zone_id@,
            now,
            old(valves)@,
            final(valves)@,
            old(valve_opened_at).rows(),
            final(valve_opened_at).rows(),
            old(shared)@,
            final(shared)@,
            out@,
        ),
        old(valve_opened_at).wf() ==> final(valve_opened_at).wf(),
        final(shared)@.active() <= old(shared)@.active(),
        old(shared)@.wf() ==> final(shared)@.wf(),
        old(valve_opened_at).wf() && in_step(old(valves)@, old(valve_opened_at).rows(), old(shared)@)
            ==> in_step(final(valves)@, final(valve_opened_at).rows(), final(shared)@),
{
    proof {
        lemma_active_after_valve(old(shared)@, now.unix_nanos, zone_id@, false);
        if old(valve_opened_at).wf() && in_step(
            old(valves)@,
            old(valve_opened_at).rows(),
            old(shared)@,
        ) {
            lemma_valve_keeps_step(
                old(valves)@,
                old(valve_opened_at).rows(),
                old(shared)@,
                zone_id@,
                false,
                now,
            );
        }
    }
    let write = valves.set(zone_id, false);
    let was = valve_opened_at.take(zone_id);
    shared.record_valve_at(now.unix_nanos, zone_id, false);
    match was {
        Some(since) => {
            let secs = seconds_since(since, now.mono_secs);
            let mut zone: String = String::new();
            push_str(&mut zone, zone_id);
            let mut reason: String = String::new();
            push_str(&mut reason, "manual_command");
            let mut result: String = String::new();
            push_str(&mut result, "ok");
            let row = WateringEventRow {
                ts_start: sub_held(now.unix_secs, secs),
                ts_end: now.unix_secs,
                zone_id: zone,
                reason,
                result,
            };
            assert(row@ =~= manual_watering(zone_id@, secs, now));
            ValveOutcome {
                pin_write: write,
                add_pulse: false,
                open_seconds: Some(secs),
                watering_event: Some(row),
            }
        },
        None => ValveOutcome {
            pin_write: write,
            add_pulse: false,
            open_seconds: None,
            watering_event: None,
        },
    }
}

/// The error event of a valve command that arrives in monitor mode.
pub open spec fn monitor_text(zone: Seq<char>) -> Seq<char> {
    "valve command ignored for "@ + zone + " — system is in monitor mode"@
}

/// What a valve command does. In monitor mode it is ignored with an error
/// event. A payload that is no command is dropped with an error event that
/// quotes it. `ON` goes through the safety gate, `OFF` closes the valve.
pub open spec fn command_post(
    zone: Seq<char>,
    token: Seq<char>,
    zone_configs: Seq<(Seq<char>, ZoneConfig)>,
    counters: CounterRead,
    ceiling: nat,
    mode: OperationMode,
    now: Now,
    board: BoardView,
    board_after: BoardView,
    opened: Seq<(Seq<char>, u64)>,
    opened_after: Seq<(Seq<char>, u64)>,
    state: StateView,
    state_after: StateView,
    out: OutcomeView,
) -> bool {
    let dropped = |detail: Seq<char>|
        {
            &&& board_after == board
            &&& opened_after == opened
            &&& state_after == state.push_event(
                EventView { ts: now.unix_nanos, kind: EventKind::Error, detail },
            )
            &&& out == nothing_to_do()
        };
    if mode is Monitor {
        dropped(monitor_text(zone))
    } else {
        match valve_token_result(token) {
            Err(msg) => dropped(msg),
            Ok(true) => open_post(
                zone,
                zone_configs,
                counters,
                ceiling,
                now,
                board,
                board_after,
                opened,
                opened_after,
                state,
                state_after,
                out,
            ),
            Ok(false) => close_post(
                zone,
                now,
                board,
                board_after,
                opened,
                opened_after,
                state,
                state_after,
                out,
            ),
        }
    }
}

/// Handles a message on the valve topic of a zone. `counters` is what the
/// store said of the counters of the zone for today.
pub fn handle_valve_command(
    zone_id: &str,
    payload: &[u8],
    zone_configs: &Table<ZoneConfig>,
    valves: &mut ValveBoard,
    valve_opened_at: &mut Table<u64>,
    counters: CounterRead,
    shared: &mut SystemState,
    max_concurrent_valves: usize,
    mode: OperationMode,
    now: Now,
) -> (out: ValveOutcome)
    ensures
        command_post(
            zone_id@,
            uppercase(trimmed(lossy_text(payload@))),
            zone_configs.rows(),
            counters,
            max_concurrent_valves as nat,
            mode,
            now,
            old(valves)@,
            final(valves)@,
            old(valve_opened_at).rows(),
            final(valve_opened_at).rows(),
            old(shared)@,
            final(shared)@,
            out@,
        ),
        old(valve_opened_at).wf() ==> final(valve_opened_at).wf(),
        old(shared)@.active() <= max_concurrent_valves ==> final(shared)@.active()
            <= max_concurrent_valves,
        old(shared)@.wf() ==> final(shared)@.wf(),
        out@.add_pulse ==> pulse_within_caps(
            limits_of(lookup(zone_configs.rows(), zone_id@)),
            counters,
        ),
        old(valve_opened_at).wf() && in_step(old(valves)@, old(valve_opened_at).rows(), old(shared)@)
            ==> in_step(final(valves)@, final(valve_opened_at).rows(), final(shared)@),
{
    let idle = ValveOutcome {
        pin_write: None,
        add_pulse: false,
        open_seconds: None,
        watering_event: None,
    };
    if mode == OperationMode::Monitor {
        let mut msg: String = String::new();
        push_str(&mut msg, "valve command ignored for ");
        push_str(&mut msg, zone_id);
        push_str(&mut msg, " — system is in monitor mode");
        assert(msg@ =~= monitor_text(zone_id@));
        proof {
            if in_step(old(valves)@, old(valve_opened_at).rows(), old(shared)@) {
                lemma_event_keeps_step(
                    old(valves)@,
                    old(valve_opened_at).rows(),
                    old(shared)@,
                    EventView { ts: now.unix_nanos, kind: EventKind::Error, detail: msg@ },
                );
            }
        }
        shared.record_error_at(now.unix_nanos, msg);
        return idle;
    }
    match parse_valve_command(payload) {
        Err(msg) => {
            proof {
                if in_step(old(valves)@, old(valve_opened_at).rows(), old(shared)@) {
                    lemma_event_keeps_step(
                        old(valves)@,
                        old(valve_opened_at).rows(),
                        old(shared)@,
                        EventView { ts: now.unix_nanos, kind: EventKind::Error, detail: msg@ },
                    );
                }
            }
            shared.record_error_at(now.unix_nanos, msg);
            idle
        },
        Ok(true) => open_valve(
            zone_id,
            zone_configs,
            valves,
            valve_opened_at,
            counters,
            shared,
            max_concurrent_valves,
            now,
        ),
        Ok(false) => close_valve(zone_id, valves, valve_opened_at, shared, now),
    }
}

/// Handles a message on the status topic of a node: `online` and `offline`
/// are recorded, anything else is left aside.
pub fn handle_node_status(node_id: &str, payload: &[u8], shared: &mut SystemState, now: Now)
    ensures
        final(shared)@ == match status_token_result(lowercase(trimmed(lossy_text(payload@)))) {
            Some(online) => old(shared)@.record_node_status(now.unix_nanos, node_id@, online),
            None => old(shared)@,
        },
        old(shared)@.wf() ==> final(shared)@.wf(),
        final(shared)@.zones == old(shared)@.zones,
{
    match parse_node_status(payload) {
        Some(online) => {
            shared.record_node_status_at(now.unix_nanos, node_id, online);
        },
        None => {},
    }
}

/// The error event of an emergency shutdown.
pub open spec fn all_off_text(reason: Seq<char>) -> Seq<char> {
    "all valves off: "@ + reason
}

/// The state after an emergency shutdown: the bus counts as down, every zone
/// is off, and the reason stands in the ring as an error.
pub open spec fn state_after_all_off(state: StateView, reason: Seq<char>, now: Now) -> StateView {
    (StateView { mqtt_connected: false, ..state }).set_all_zones_off(now.unix_nanos).push_event(
        EventView { ts: now.unix_nanos, kind: EventKind::Error, detail: all_off_text(reason) },
    )
}

/// Switches everything off at once: every relay, every stamp of an opening,
/// every zone in the state. Returns the writes that drive every pin to the
/// level at which it is off.
pub fn emergency_all_off(
    valves: &mut ValveBoard,
    valve_opened_at: &mut Table<u64>,
    shared: &mut SystemState,
    reason: &str,
    now: Now,
) -> (writes: Vec<PinWrite>)
    ensures
        final(valves)@.relays == relays_all_off(old(valves)@.relays),
        final(valves)@.active_low == old(valves)@.active_low,
        writes@ == writes_all_off(old(valves)@.relays, old(valves)@.active_low),
        final(valve_opened_at).rows().len() == 0,
        final(valve_opened_at).wf(),
        final(shared)@ == state_after_all_off(old(shared)@, reason@, now),
        final(shared)@.active() == 0,
        old(shared)@.wf() ==> final(shared)@.wf(),
        forall|i: int|
            0 <= i < final(valves)@.relays.len() ==> !(#[trigger] final(valves)@.relays[i]).1.on,
        writes@.len() == old(valves)@.relays.len(),
        forall|i: int|
            0 <= i < writes@.len() ==> (#[trigger] writes@[i]).gpio_pin == old(valves)@.relays[i].1.gpio_pin
                && writes@[i].high == level_for(false, old(valves)@.active_low),
        in_step(final(valves)@, final(valve_opened_at).rows(), final(shared)@),
{
    let writes = valves.all_off();
    valve_opened_at.clear();
    shared.set_mqtt_connected(false);
    shared.set_all_zones_off_at(now.unix_nanos);
    let mut msg: String = String::new();
    push_str(&mut msg, "all valves off: ");
    push_str(&mut msg, reason);
    assert(msg@ =~= all_off_text(reason@));
    shared.record_error_at(now.unix_nanos, msg);
    proof {
        lemma_count_on_all_off(old(shared)@.zones, now.unix_nanos);
        let off = (StateView { mqtt_connected: false, ..old(shared)@ }).set_all_zones_off(
            now.unix_nanos,
        );
        lemma_all_off_is_in_step(
            old(valves)@,
            StateView { mqtt_connected: false, ..old(shared)@ },
            now.unix_nanos,
        );
        lemma_event_keeps_step(
            valves@,
            Seq::empty(),
            off,
            EventView {
                ts: now.unix_nanos,
                kind: EventKind::Error,
                detail: all_off_text(reason@),
            },
        );
        assert(valve_opened_at.rows() =~= Seq::<(Seq<char>, u64)>::empty());
    }
    writes
}

/// The most bytes that a telemetry payload may have.
pub const MAX_TELEMETRY_PAYLOAD_BYTES: usize = 4096;

/// The most readings that one telemetry message may carry.
pub const MAX_READINGS_PER_MESSAGE: usize = 32;

/// One reading to enter into the store.
#[derive(Debug)]
pub struct ReadingInsert {
    pub ts: i64,
    /// The sensor as the store knows it: `<node_id>/<sensor_id>`.
    pub sensor_id: String,
    pub raw: i64,
    pub moisture: Moisture,
}

/// A `ReadingInsert` with its text as characters.
pub ghost struct InsertView {
    pub ts: i64,
    pub sensor_id: Seq<char>,
    pub raw: i64,
    pub moisture: Moisture,
}

impl View for ReadingInsert {
    type V = InsertView;

    open spec fn view(&self) -> InsertView {
        InsertView { ts: self.ts, sensor_id: self.sensor_id@, raw: self.raw, moisture: self.moisture }
    }
}

/// The views of a list of inserts.
pub open spec fn inserts_view(inserts: Seq<ReadingInsert>) -> Seq<InsertView> {
    Seq::new(inserts.len(), |i: int| inserts[i]@)
}

/// The views of the readings of a message.
pub open spec fn message_view(readings: Seq<Reading>) -> Seq<ReadingView> {
    Seq::new(readings.len(), |i: int| readings[i]@)
}

/// The error event of a payload that is too large.
pub open spec fn too_large_text(node: Seq<char>, bytes: nat) -> Seq<char> {
    "telemetry from "@ + node + " dropped: "@ + decimal_nat(bytes) + " bytes exceeds "@
        + decimal_nat(MAX_TELEMETRY_PAYLOAD_BYTES as nat) + " limit"@
}

/// The error event of a message with too many readings.
pub open spec fn too_many_text(node: Seq<char>, count: nat) -> Seq<char> {
    "telemetry from "@ + node + " dropped: "@ + decimal_nat(count) + " readings exceeds "@
        + decimal_nat(MAX_READINGS_PER_MESSAGE as nat) + " limit"@
}

/// The error event of a payload that could not be read.
pub open spec fn bad_json_text(node: Seq<char>, error: Seq<char>) -> Seq<char> {
    "bad telemetry json from "@ + node + ": "@ + error
}

/// The error event of a raw value that no working sensor gives.
pub open spec fn implausible_text(sensor: Seq<char>, raw: i64, dry: i64, wet: i64) -> Seq<char> {
    "sensor "@ + sensor + " implausible raw="@ + decimal(raw as int) + " (dry="@ + decimal(
        dry as int,
    ) + ", wet="@ + decimal(wet as int) + ")"@
}

/// The name of a sensor in the store: the node, a slash, the name on the node.
pub open spec fn qualified(node: Seq<char>, sensor: Seq<char>) -> Seq<char> {
    node + seq!['/'] + sensor
}

/// What has come of the readings of a message so far.
pub ghost struct Batch {
    pub state: StateView,
    pub inserts: Seq<InsertView>,
    pub valid: Seq<ReadingView>,
}

/// The batch after one more reading. A reading of a sensor that is not
/// known is passed over. A raw value that is not plausible is passed over
/// with an error event. Any other reading is entered with its moisture.
pub open spec fn ingest_one(
    b: Batch,
    node: Seq<char>,
    ts: i64,
    r: ReadingView,
    sensors: Seq<(Seq<char>, SensorConfig)>,
    now: Now,
) -> Batch {
    let id = qualified(node, r.sensor_id);
    match lookup(sensors, id) {
        None => b,
        Some(sc) => if !plausible(r.raw as int, sc.raw_dry as int, sc.raw_wet as int) {
            Batch {
                state: b.state.push_event(
                    EventView {
                        ts: now.unix_nanos,
                        kind: EventKind::Error,
                        detail: implausible_text(id, r.raw, sc.raw_dry, sc.raw_wet),
                    },
                ),
                ..b
            }
        } else {
            Batch {
                inserts: b.inserts.push(
                    InsertView {
                        ts,
                        sensor_id: id,
                        raw: r.raw,
                        moisture: Moisture {
                            num: moisture_num(r.raw as int, sc.raw_dry as int, sc.raw_wet as int) as u64,
                            den: moisture_den(sc.raw_dry as int, sc.raw_wet as int) as u64,
                        },
                    },
                ),
                valid: b.valid.push(r),
                ..b
            }
        },
    }
}

/// The batch after all the readings of a message, in their order.
pub open spec fn ingest_all(
    b: Batch,
    node: Seq<char>,
    ts: i64,
    readings: Seq<ReadingView>,
    sensors: Seq<(Seq<char>, SensorConfig)>,
    now: Now,
) -> Batch
    decreases readings.len(),
{
    if readings.len() == 0 {
        b
    } else {
        ingest_one(
            ingest_all(b, node, ts, readings.drop_last(), sensors, now),
            node,
            ts,
            readings.last(),
            sensors,
            now,
        )
    }
}

/// The state after the batch is done: the node is recorded with the readings
/// that were entered, if there are any.
pub open spec fn batch_done(b: Batch, node: Seq<char>, now: Now) -> StateView {
    if b.valid.len() > 0 {
        b.state.record_reading(now.unix_nanos, node, b.valid)
    } else {
        b.state
    }
}

/// Whether a telemetry payload of `payload_len` bytes may be read at all. One
/// that is too large is dropped with an error event.
pub fn admit_telemetry(node_id: &str, payload_len: usize, shared: &mut SystemState, now: Now) -> (ok:
    bool)
    ensures
        ok == (payload_len <= MAX_TELEMETRY_PAYLOAD_BYTES),
        final(shared)@ == if ok {
            old(shared)@
        } else {
            old(shared)@.push_event(
                EventView {
                    ts: now.unix_nanos,
                    kind: EventKind::Error,
                    detail: too_large_text(node_id@, payload_len as nat),
                },
            )
        },
        old(shared)@.wf() ==> final(shared)@.wf(),
        final(shared)@.zones == old(shared)@.zones,
{
    if payload_len <= MAX_TELEMETRY_PAYLOAD_BYTES {
        return true;
    }
    let mut msg: String = String::new();
    push_str(&mut msg, "telemetry from ");
    push_str(&mut msg, node_id);
    push_str(&mut msg, " dropped: ");
    push_nat(&mut msg, payload_len as u128);
    push_str(&mut msg, " bytes exceeds ");
    push_nat(&mut msg, MAX_TELEMETRY_PAYLOAD_BYTES as u128);
    push_str(&mut msg, " limit");
    assert(msg@ =~= too_large_text(node_id@, payload_len as nat));
    shared.record_error_at(now.unix_nanos, msg);
    false
}

/// Handles a telemetry message that was admitted and read: `parsed` is the
/// message, or the words of the reader on why the payload is none. Returns
/// the readings to enter into the store.
pub fn handle_telemetry(
    node_id: &str,
    parsed: &Result<ReadingMsg, String>,
    sensor_map: &Table<SensorConfig>,
    shared: &mut SystemState,
    now: Now,
) -> (inserts: Vec<ReadingInsert>)
    ensures
        match *parsed {
            Err(e) => {
                &&& inserts@.len() == 0
                &&& final(shared)@ == old(shared)@.push_event(
                    EventView {
                        ts: now.unix_nanos,
                        kind: EventKind::Error,
                        detail: bad_json_text(node_id@, e@),
                    },
                )
            },
            Ok(msg) => if msg.readings@.len() > MAX_READINGS_PER_MESSAGE {
                &&& inserts@.len() == 0
                &&& final(shared)@ == old(shared)@.push_event(
                    EventView {
                        ts: now.unix_nanos,
                        kind: EventKind::Error,
                        detail: too_many_text(node_id@, msg.readings@.len()),
                    },
                )
            } else {
                let b = ingest_all(
                    Batch { state: old(shared)@, inserts: Seq::empty(), valid: Seq::empty() },
                    node_id@,
                    msg.ts,
                    message_view(msg.readings@),
                    sensor_map.rows(),
                    now,
                );
                &&& inserts_view(inserts@) == b.inserts
                &&& final(shared)@ == batch_done(b, node_id@, now)
            },
        },
        old(shared)@.wf() ==> final(shared)@.wf(),
        forall|i: int|
            0 <= i < inserts@.len() ==> insert_plausible((#[trigger] inserts@[i])@, sensor_map.rows()),
        final(shared)@.zones == old(shared)@.zones,
{
    let mut inserts: Vec<ReadingInsert> = Vec::new();
    let msg = match parsed {
        Err(e) => {
            let mut text: String = String::new();
            push_str(&mut text, "bad telemetry json from ");
            push_str(&mut text, node_id);
            push_str(&mut text, ": ");
            push_str(&mut text, e.as_str());
            assert(text@ =~= bad_json_text(node_id@, e@));
            shared.record_error_at(now.unix_nanos, text);
            return inserts;
        },
        Ok(msg) => msg,
    };
    if msg.readings.len() > MAX_READINGS_PER_MESSAGE {
        let mut text: String = String::new();
        push_str(&mut text, "telemetry from ");
        push_str(&mut text, node_id);
        push_str(&mut text, " dropped: ");
        push_nat(&mut text, msg.readings.len() as u128);
        push_str(&mut text, " readings exceeds ");
        push_nat(&mut text, MAX_READINGS_PER_MESSAGE as u128);
        push_str(&mut text, " limit");
        assert(text@ =~= too_many_text(node_id@, msg.readings@.len()));
        shared.record_error_at(now.unix_nanos, text);
        return inserts;
    }
    let ghost start = Batch { state: old(shared)@, inserts: Seq::empty(), valid: Seq::empty() };
    let ghost rv = message_view(msg.readings@);
    let mut valid: Vec<SensorReading> = Vec::new();
    let mut i: usize = 0;
    assert(inserts_view(inserts@) =~= Seq::<InsertView>::empty());
    assert(readings_view(valid@) =~= Seq::<ReadingView>::empty());
    while i < msg.readings.len()
        invariant
            i <= msg.readings.len(),
            rv == message_view(msg.readings@),
            shared@.zones == old(shared)@.zones,
            old(shared)@.wf() ==> shared@.wf(),
            (Batch {
                state: shared@,
                inserts: inserts_view(inserts@),
                valid: readings_view(valid@),
            }) == ingest_all(start, node_id@, msg.ts, rv.take(i as int), sensor_map.rows(), now),
        decreases msg.readings.len() - i,
    {
        let r = &msg.readings[i];
        proof {
            assert(rv.take(i + 1).drop_last() =~= rv.take(i as int));
            assert(rv.take(i + 1).last() == r@);
        }
        let mut id: String = String::new();
        push_str(&mut id, node_id);
        id.push('/');
        push_str(&mut id, r.sensor_id.as_str());
        assert(id@ =~= qualified(node_id@, r.sensor_id@));
        match sensor_map.get(id.as_str()) {
            None => {},
            Some(sc) => {
                if !is_reading_plausible(r.raw, sc.raw_dry, sc.raw_wet) {
                    let mut text: String = String::new();
                    push_str(&mut text, "sensor ");
                    push_str(&mut text, id.as_str());
                    push_str(&mut text, " implausible raw=");
                    push_int(&mut text, r.raw);
                    push_str(&mut text, " (dry=");
                    push_int(&mut text, sc.raw_dry);
                    push_str(&mut text, ", wet=");
                    push_int(&mut text, sc.raw_wet);
                    push_str(&mut text, ")");
                    assert(text@ =~= implausible_text(id@, r.raw, sc.raw_dry, sc.raw_wet));
                    shared.record_error_at(now.unix_nanos, text);
                } else {
                    let moisture = compute_moisture(r.raw, sc.raw_dry, sc.raw_wet);
                    let ghost before_inserts = inserts_view(inserts@);
                    let ghost before_valid = readings_view(valid@);
                    inserts.push(ReadingInsert { ts: msg.ts, sensor_id: id, raw: r.raw, moisture });
                    valid.push(SensorReading { sensor_id: r.sensor_id.clone(), raw: r.raw });
                    assert(inserts_view(inserts@) =~= before_inserts.push(inserts@.last()@));
                    assert(readings_view(valid@) =~= before_valid.push(r@));
                }
            },
        }
        i += 1;
    }
    assert(rv.take(msg.readings.len() as int) =~= rv);
    proof {
        let b = ingest_all(start, node_id@, msg.ts, rv, sensor_map.rows(), now);
        lemma_inserts_plausible(start, node_id@, msg.ts, rv, sensor_map.rows(), now);
        assert(inserts_view(inserts@) == b.inserts);
        assert forall|i: int| 0 <= i < inserts@.len() implies insert_plausible(
            (#[trigger] inserts@[i])@,
            sensor_map.rows(),
        ) by {
            assert(b.inserts[i] == inserts@[i]@);
            assert(insert_plausible(b.inserts[i], sensor_map.rows()));
        }
    }
    if valid.len() > 0 {
        shared.record_reading_at(now.unix_nanos, node_id, valid);
    }
    inserts
}

/// Whatever a message holds, every reading that is entered into the store
/// belongs to a sensor that is known, and its raw value lies within the
/// margin around the calibration endpoints of that sensor.
pub proof fn lemma_inserts_plausible(
    b: Batch,
    node: Seq<char>,
    ts: i64,
    readings: Seq<ReadingView>,
    sensors: Seq<(Seq<char>, SensorConfig)>,
    now: Now,
)
    requires
        forall|i: int| 0 <= i < b.inserts.len() ==> insert_plausible(#[trigger] b.inserts[i], sensors),
    ensures
        forall|i: int|
            0 <= i < ingest_all(b, node, ts, readings, sensors, now).inserts.len()
                ==> insert_plausible(
                #[trigger] ingest_all(b, node, ts, readings, sensors, now).inserts[i],
                sensors,
            ),
    decreases readings.len(),
{
    if readings.len() > 0 {
        lemma_inserts_plausible(b, node, ts, readings.drop_last(), sensors, now);
        let prev = ingest_all(b, node, ts, readings.drop_last(), sensors, now);
        let next = ingest_one(prev, node, ts, readings.last(), sensors, now);
        assert(next == ingest_all(b, node, ts, readings, sensors, now));
        assert forall|i: int| 0 <= i < next.inserts.len() implies insert_plausible(
            #[trigger] next.inserts[i],
            sensors,
        ) by {
            if i < prev.inserts.len() {
                assert(next.inserts[i] == prev.inserts[i]);
            }
        }
    }
}

/// Whether an insert belongs to a known sensor and holds a plausible raw value.
pub open spec fn insert_plausible(ins: InsertView, sensors: Seq<(Seq<char>, SensorConfig)>) -> bool {
    match lookup(sensors, ins.sensor_id) {
        Some(sc) => plausible(ins.raw as int, sc.raw_dry as int, sc.raw_wet as int),
        None => false,
    }
}

} // verus!
