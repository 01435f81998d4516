use irrigation::config::OperationMode;
use irrigation::db::ZoneConfig;
use irrigation::ingest::Now;
use irrigation::level::Level;
use irrigation::safety::CounterRead;
use irrigation::scheduler::{
    begin_tick, decide_idle, handle_idle, handle_soaking, handle_watering, initial_states,
    publish_done, scheduler_started, tick_zone, Fetched, IdleVerdict, Tick, ZoneReads,
    ZoneScheduleState, AVG_WINDOW, TICK_INTERVAL_SEC,
};
use irrigation::state::{EventKind, SystemState};
use irrigation::table::Table;

const NOW_UNIX: i64 = 1_700_000_000;

fn level(x: f32) -> Level {
    Level::from_bits(x.to_bits())
}

fn now_at(mono_secs: u64) -> Now {
    Now {
        mono_secs,
        unix_secs: NOW_UNIX + mono_secs as i64,
        unix_nanos: (NOW_UNIX as i128 + mono_secs as i128) * 1_000_000_000,
    }
}

/// Build a zone config with sensible defaults for testing.
fn test_zone_cfg() -> ZoneConfig {
    ZoneConfig {
        zone_id: "z1".into(),
        name: "Test Zone".into(),
        min_moisture: level(0.3),
        target_moisture: level(0.5),
        pulse_sec: 30,
        soak_min: 20,
        max_open_sec_per_day: 180,
        max_pulses_per_day: 6,
        stale_timeout_min: 30,
        valve_gpio_pin: 17,
    }
}

/// Build a state with one zone.
fn test_shared() -> SystemState {
    SystemState::new(&[("z1".to_string(), 17)], "auto")
}

fn two_zone_shared() -> SystemState {
    SystemState::new(&[("z1".to_string(), 17), ("z2".to_string(), 27)], "auto")
}

/// What the store says of a zone whose five newest readings all show `moisture`,
/// the newest of them taken just now; `None` for a zone without readings.
fn seeded(moisture: Option<f32>) -> ZoneReads {
    match moisture {
        Some(m) => ZoneReads {
            latest: Fetched::Found((NOW_UNIX, level(m))),
            counters: CounterRead::Known { pulses: 0, open_sec: 0 },
            average: Fetched::Found(level(m)),
        },
        None => ZoneReads {
            latest: Fetched::Missing,
            counters: CounterRead::Known { pulses: 0, open_sec: 0 },
            average: Fetched::Missing,
        },
    }
}

/// Evaluates zone `z1` once as the scheduler does in a tick; a command that
/// the scheduler asks for reaches the bus.
fn evaluate(
    state: &mut ZoneScheduleState,
    reads: &ZoneReads,
    shared: &mut SystemState,
    max_concurrent_valves: usize,
    mode: OperationMode,
    now: Now,
) -> Option<bool> {
    let mut tick = begin_tick(shared);
    let cfg = test_zone_cfg();
    let ask = tick_zone(tick, "z1", &cfg, state, reads, shared, max_concurrent_valves, mode, now);
    let on = ask.as_ref().map(|r| r.on);
    if let Some(request) = ask {
        assert_eq!(request.topic, "valve/z1/set");
        let mean = match reads.average {
            Fetched::Found(m) => m,
            _ => level(0.0),
        };
        publish_done(&mut tick, "z1", &cfg, request.on, true, mean, state, shared, now);
    }
    on
}

fn scheduler_events(shared: &SystemState) -> Vec<String> {
    shared
        .events()
        .iter()
        .filter(|e| matches!(e.kind, EventKind::Scheduler))
        .map(|e| e.detail.clone())
        .collect()
}

// -- Idle: no readings → stays idle ----------------------------------

#[test]
fn idle_no_readings_stays_idle() {
    let mut shared = test_shared();
    shared.set_mqtt_connected(true);

    let mut state = ZoneScheduleState::Idle;
    evaluate(&mut state, &seeded(None), &mut shared, 2, OperationMode::Auto, now_at(0));

    assert!(matches!(state, ZoneScheduleState::Idle));
}

// -- Idle: moisture above min → stays idle ---------------------------

#[test]
fn idle_moisture_above_min_stays_idle() {
    let mut shared = test_shared();
    shared.set_mqtt_connected(true);

    let mut state = ZoneScheduleState::Idle;
    evaluate(&mut state, &seeded(Some(0.6)), &mut shared, 2, OperationMode::Auto, now_at(0));

    assert!(matches!(state, ZoneScheduleState::Idle));
}

// -- Idle: moisture below min → transitions to Watering ---------------

#[test]
fn idle_moisture_below_min_starts_watering() {
    let mut shared = test_shared();
    shared.set_mqtt_connected(true);

    let mut state = ZoneScheduleState::Idle;
    let sent = evaluate(&mut state, &seeded(Some(0.2)), &mut shared, 2, OperationMode::Auto, now_at(7));

    assert!(matches!(state, ZoneScheduleState::Watering { since: 7 }));
    assert_eq!(sent, Some(true));
    assert_eq!(
        scheduler_events(&shared),
        ["z1: pulse started (moisture 0.200 < min 0.300)"]
    );
}

// -- Idle: MQTT disconnected → stays idle ----------------------------

#[test]
fn idle_mqtt_disconnected_stays_idle() {
    let mut shared = test_shared();
    // mqtt_connected defaults to false

    let mut state = ZoneScheduleState::Idle;
    evaluate(&mut state, &seeded(Some(0.1)), &mut shared, 2, OperationMode::Auto, now_at(0));

    assert!(matches!(state, ZoneScheduleState::Idle));
}

// -- Idle: zone already on → stays idle ------------------------------

#[test]
fn idle_zone_already_on_stays_idle() {
    let mut shared = test_shared();
    shared.set_mqtt_connected(true);
    shared.record_valve("z1", true);

    let mut state = ZoneScheduleState::Idle;
    evaluate(&mut state, &seeded(Some(0.1)), &mut shared, 2, OperationMode::Auto, now_at(0));

    assert!(matches!(state, ZoneScheduleState::Idle));
}

// -- Idle: daily limit exhausted → stays idle -------------------------

#[test]
fn idle_daily_limit_exhausted_stays_idle() {
    let mut shared = test_shared();
    shared.set_mqtt_connected(true);

    // Exhaust the pulse limit.
    let mut reads = seeded(Some(0.1));
    reads.counters = CounterRead::Known { pulses: 6, open_sec: 0 };

    let mut state = ZoneScheduleState::Idle;
    evaluate(&mut state, &reads, &mut shared, 2, OperationMode::Auto, now_at(0));
    assert!(matches!(state, ZoneScheduleState::Idle));

    // One pulse short of the limit there is room.
    reads.counters = CounterRead::Known { pulses: 5, open_sec: 179 };
    evaluate(&mut state, &reads, &mut shared, 2, OperationMode::Auto, now_at(0));
    assert!(matches!(state, ZoneScheduleState::Watering { .. }));

    // The open seconds cap refuses as well.
    let mut state = ZoneScheduleState::Idle;
    reads.counters = CounterRead::Known { pulses: 0, open_sec: 180 };
    evaluate(&mut state, &reads, &mut shared, 2, OperationMode::Auto, now_at(0));
    assert!(matches!(state, ZoneScheduleState::Idle));

    // Counters that cannot be read start nothing.
    reads.counters = CounterRead::Failed;
    evaluate(&mut state, &reads, &mut shared, 2, OperationMode::Auto, now_at(0));
    assert!(matches!(state, ZoneScheduleState::Idle));
}

// -- Watering: pulse not elapsed → stays Watering --------------------

#[test]
fn watering_pulse_not_elapsed_stays_watering() {
    let mut shared = test_shared();

    let since = 100; // just started
    let mut state = ZoneScheduleState::Watering { since };
    let sent = evaluate(&mut state, &seeded(None), &mut shared, 2, OperationMode::Auto, now_at(100));

    assert!(matches!(state, ZoneScheduleState::Watering { .. }));
    assert_eq!(sent, None);
    evaluate(&mut state, &seeded(None), &mut shared, 2, OperationMode::Auto, now_at(129));
    assert!(matches!(state, ZoneScheduleState::Watering { since: 100 }));
}

// -- Watering: pulse elapsed → transitions to Soaking ----------------

#[test]
fn watering_pulse_elapsed_transitions_to_soaking() {
    let mut shared = test_shared();

    // Simulate pulse_sec already elapsed.
    let mut state = ZoneScheduleState::Watering { since: 100 };
    let sent = evaluate(&mut state, &seeded(None), &mut shared, 2, OperationMode::Auto, now_at(131));

    assert!(matches!(state, ZoneScheduleState::Soaking { .. }));
    assert_eq!(sent, Some(false));
    assert!(matches!(state, ZoneScheduleState::Soaking { until } if until == 131 + 20 * 60));
    assert_eq!(scheduler_events(&shared), ["z1: pulse done, soaking 20min"]);
}

#[test]
fn watering_ends_exactly_when_the_pulse_is_over() {
    let cfg = test_zone_cfg();
    assert!(handle_watering("z1", &cfg, 100, now_at(129)).is_none());
    let ask = handle_watering("z1", &cfg, 100, now_at(130)).unwrap();
    assert_eq!((ask.topic.as_str(), ask.on), ("valve/z1/set", false));
    // A clock that reads less than the start counts as no time at all.
    assert!(handle_watering("z1", &cfg, 100, now_at(5)).is_none());
}

// -- Soaking: not expired → stays Soaking ----------------------------

#[test]
fn soaking_not_expired_stays_soaking() {
    let mut shared = test_shared();

    let mut state = ZoneScheduleState::Soaking { until: 600 };
    evaluate(&mut state, &seeded(Some(0.4)), &mut shared, 2, OperationMode::Auto, now_at(0));

    assert!(matches!(state, ZoneScheduleState::Soaking { .. }));
    evaluate(&mut state, &seeded(Some(0.4)), &mut shared, 2, OperationMode::Auto, now_at(599));
    assert!(matches!(state, ZoneScheduleState::Soaking { until: 600 }));
    assert!(shared.events().is_empty());
}

// -- Soaking: expired + moisture >= target → Idle --------------------

#[test]
fn soaking_expired_target_reached_goes_idle() {
    let mut shared = test_shared();

    let mut state = ZoneScheduleState::Soaking { until: 99 }; // already expired
    evaluate(&mut state, &seeded(Some(0.6)), &mut shared, 2, OperationMode::Auto, now_at(100));

    assert!(matches!(state, ZoneScheduleState::Idle));
    assert_eq!(
        scheduler_events(&shared),
        ["z1: target reached (moisture 0.600 >= target 0.500)"]
    );
}

// -- Soaking: expired + moisture < target → Idle (re-evaluate) -------

#[test]
fn soaking_expired_below_target_goes_idle_for_reevaluation() {
    let mut shared = test_shared();

    let mut state = ZoneScheduleState::Soaking { until: 99 };
    evaluate(&mut state, &seeded(Some(0.35)), &mut shared, 2, OperationMode::Auto, now_at(100));

    // Returns to Idle so full guard checks run before next pulse.
    assert!(matches!(state, ZoneScheduleState::Idle));
    assert_eq!(
        scheduler_events(&shared),
        ["z1: soak done, moisture 0.350 < target 0.500"]
    );
}

// -- Soaking: expired + no readings → Idle (safe fallback) -----------

#[test]
fn soaking_expired_no_readings_goes_idle() {
    let mut shared = test_shared();

    let mut state = ZoneScheduleState::Soaking { until: 99 };
    evaluate(&mut state, &seeded(None), &mut shared, 2, OperationMode::Auto, now_at(100));

    assert!(matches!(state, ZoneScheduleState::Idle));
    assert!(shared.events().is_empty());

    let mut state = ZoneScheduleState::Soaking { until: 100 };
    handle_soaking("z1", &test_zone_cfg(), 100, &mut state, Fetched::Failed, &mut shared, now_at(100));
    assert!(matches!(state, ZoneScheduleState::Idle));
    assert!(shared.events().is_empty());
}

// -- Idle: stale data → stays idle -----------------------------------

#[test]
fn idle_stale_data_stays_idle() {
    // The newest reading is from 2 hours ago (stale_timeout_min is 30).
    let mut reads = seeded(Some(0.1));
    reads.latest = Fetched::Found((NOW_UNIX - 7200, level(0.1)));

    let mut shared = test_shared();
    shared.set_mqtt_connected(true);

    let mut state = ZoneScheduleState::Idle;
    evaluate(&mut state, &reads, &mut shared, 2, OperationMode::Auto, now_at(0));

    assert!(matches!(state, ZoneScheduleState::Idle));
}

#[test]
fn a_reading_is_fresh_up_to_the_timeout() {
    let mut shared = test_shared();
    shared.set_mqtt_connected(true);
    let cfg = test_zone_cfg();
    let tick = begin_tick(&shared);
    let mut reads = seeded(Some(0.1));
    reads.latest = Fetched::Found((NOW_UNIX - 1800, level(0.1)));
    let v = decide_idle(OperationMode::Auto, &shared, tick, 2, "z1", &cfg, &reads, now_at(0));
    assert_eq!(v, IdleVerdict::StartPulse);
    reads.latest = Fetched::Found((NOW_UNIX - 1801, level(0.1)));
    let v = decide_idle(OperationMode::Auto, &shared, tick, 2, "z1", &cfg, &reads, now_at(0));
    assert_eq!(v, IdleVerdict::Stay);
    reads.latest = Fetched::Failed;
    let v = decide_idle(OperationMode::Auto, &shared, tick, 2, "z1", &cfg, &reads, now_at(0));
    assert_eq!(v, IdleVerdict::Stay);
    // A reading from the future is fresh.
    reads.latest = Fetched::Found((i64::MAX, level(0.1)));
    let v = decide_idle(OperationMode::Auto, &shared, tick, 2, "z1", &cfg, &reads, now_at(0));
    assert_eq!(v, IdleVerdict::StartPulse);
}

#[test]
fn moisture_at_the_minimum_does_not_water() {
    let mut shared = test_shared();
    shared.set_mqtt_connected(true);
    let cfg = test_zone_cfg();
    let tick = begin_tick(&shared);
    let at = |m: f32| {
        decide_idle(OperationMode::Auto, &shared, tick, 2, "z1", &cfg, &seeded(Some(m)), now_at(0))
    };
    assert_eq!(at(0.3), IdleVerdict::Stay);
    assert_eq!(at(0.29999998), IdleVerdict::StartPulse);
    assert_eq!(at(0.0), IdleVerdict::StartPulse);
    assert_eq!(at(1.0), IdleVerdict::Stay);
    // A mean that is no number reaches no threshold.
    assert_eq!(at(f32::NAN), IdleVerdict::StartPulse);
    let mut reads = seeded(Some(0.1));
    reads.average = Fetched::Failed;
    let v = decide_idle(OperationMode::Auto, &shared, tick, 2, "z1", &cfg, &reads, now_at(0));
    assert_eq!(v, IdleVerdict::Stay);
}

// -- Idle: concurrent valve limit reached → stays idle ----------------

#[test]
fn idle_concurrent_limit_reached_stays_idle() {
    // Two-zone shared state: z2 already has its valve ON.
    let mut shared = two_zone_shared();
    shared.set_mqtt_connected(true);
    shared.record_valve("z2", true);

    let mut state = ZoneScheduleState::Idle;
    // max_concurrent_valves = 1 → z2 fills the single slot.
    let sent = evaluate(&mut state, &seeded(Some(0.1)), &mut shared, 1, OperationMode::Auto, now_at(0));

    assert!(matches!(state, ZoneScheduleState::Idle));
    assert_eq!(sent, None);
}

#[test]
fn idle_concurrent_limit_not_reached_starts_watering() {
    let mut shared = two_zone_shared();
    shared.set_mqtt_connected(true);
    shared.record_valve("z2", true); // z2 is on

    let mut state = ZoneScheduleState::Idle;
    // max_concurrent_valves = 2 → one slot still available.
    evaluate(&mut state, &seeded(Some(0.1)), &mut shared, 2, OperationMode::Auto, now_at(0));

    assert!(matches!(state, ZoneScheduleState::Watering { .. }));
}

#[test]
fn pulses_of_one_tick_count_against_the_ceiling() {
    // Two dry zones, one place: the state does not show the first pulse
    // before the command comes back, the tick does.
    let mut shared = two_zone_shared();
    shared.set_mqtt_connected(true);
    let cfg = test_zone_cfg();
    let mut tick = begin_tick(&shared);
    assert_eq!((tick.base_active, tick.started_this_tick), (0, 0));
    let mut z1 = ZoneScheduleState::Idle;
    let mut z2 = ZoneScheduleState::Idle;
    let reads = seeded(Some(0.1));

    let ask = tick_zone(tick, "z1", &cfg, &mut z1, &reads, &mut shared, 1, OperationMode::Auto, now_at(0));
    assert!(ask.is_some());
    publish_done(&mut tick, "z1", &cfg, true, true, level(0.1), &mut z1, &mut shared, now_at(0));
    assert_eq!(tick.started_this_tick, 1);

    let ask = tick_zone(tick, "z2", &cfg, &mut z2, &reads, &mut shared, 1, OperationMode::Auto, now_at(0));
    assert!(ask.is_none());
    assert!(matches!(z1, ZoneScheduleState::Watering { .. }));
    assert!(matches!(z2, ZoneScheduleState::Idle));
}

#[test]
fn a_command_that_does_not_reach_the_bus_changes_nothing() {
    let mut shared = test_shared();
    shared.set_mqtt_connected(true);
    let cfg = test_zone_cfg();
    let mut tick = begin_tick(&shared);

    let mut state = ZoneScheduleState::Idle;
    publish_done(&mut tick, "z1", &cfg, true, false, level(0.1), &mut state, &mut shared, now_at(3));
    assert!(matches!(state, ZoneScheduleState::Idle));
    assert_eq!(tick.started_this_tick, 0);

    // The watchdog is there for a valve whose OFF never gets out.
    let mut state = ZoneScheduleState::Watering { since: 0 };
    publish_done(&mut tick, "z1", &cfg, false, false, level(0.1), &mut state, &mut shared, now_at(40));
    assert!(matches!(state, ZoneScheduleState::Watering { since: 0 }));
    assert!(shared.events().is_empty());
}

// -- Monitor mode: low moisture → stays idle, records alert --------

#[test]
fn monitor_mode_low_moisture_stays_idle_records_alert() {
    let mut shared = test_shared();

    let mut state = ZoneScheduleState::Idle;
    let sent = evaluate(&mut state, &seeded(Some(0.2)), &mut shared, 2, OperationMode::Monitor, now_at(0));

    // Must stay Idle — never transitions to Watering.
    assert!(matches!(state, ZoneScheduleState::Idle));
    assert_eq!(sent, None);

    // Must have recorded a low-moisture alert event.
    let events = scheduler_events(&shared);
    assert!(!events.is_empty(), "expected at least one scheduler event");
    assert!(
        events.last().unwrap().contains("low moisture alert"),
        "expected low moisture alert, got: {}",
        events.last().unwrap()
    );
    assert_eq!(events, ["z1: low moisture alert (0.200 < min 0.300)"]);
}

// -- Monitor mode: adequate moisture → stays idle, no alert --------

#[test]
fn monitor_mode_adequate_moisture_stays_idle_no_alert() {
    let mut shared = test_shared();

    let mut state = ZoneScheduleState::Idle;
    evaluate(&mut state, &seeded(Some(0.6)), &mut shared, 2, OperationMode::Monitor, now_at(0));

    assert!(matches!(state, ZoneScheduleState::Idle));

    // No scheduler events should be recorded.
    let events = scheduler_events(&shared);
    assert!(events.is_empty(), "expected no scheduler events, got: {:?}", events);
}

// -- Monitor mode: skips MQTT connectivity check --------------------

#[test]
fn monitor_mode_ignores_mqtt_disconnected() {
    let mut shared = test_shared();
    // mqtt_connected defaults to false — in auto mode this would skip.

    let mut state = ZoneScheduleState::Idle;
    evaluate(&mut state, &seeded(Some(0.2)), &mut shared, 2, OperationMode::Monitor, now_at(0));

    // In monitor mode, the MQTT guard is skipped, so the alert IS recorded.
    let events = scheduler_events(&shared);
    assert!(
        !events.is_empty(),
        "expected alert even with MQTT disconnected in monitor mode"
    );
}

#[test]
fn monitor_mode_ignores_ceiling_and_caps_but_not_stale_readings() {
    let mut shared = test_shared();
    shared.record_valve("z1", true);
    let cfg = test_zone_cfg();
    let tick = Tick { base_active: 5, started_this_tick: 5 };
    let mut reads = seeded(Some(0.2));
    reads.counters = CounterRead::Failed;
    assert!(handle_idle("z1", &cfg, &reads, &mut shared, tick, 0, OperationMode::Monitor, now_at(0)).is_none());
    assert_eq!(scheduler_events(&shared).len(), 1);
    reads.latest = Fetched::Found((NOW_UNIX - 7200, level(0.2)));
    assert!(handle_idle("z1", &cfg, &reads, &mut shared, tick, 0, OperationMode::Monitor, now_at(0)).is_none());
    assert_eq!(scheduler_events(&shared).len(), 1);
}

// -- The rest ---------------------------------------------------------------

#[test]
fn every_zone_starts_idle() {
    let mut configs: Table<ZoneConfig> = Table::new();
    configs.put("z2", test_zone_cfg());
    configs.put("z1", test_zone_cfg());
    let states = initial_states(&configs);
    assert_eq!(states.len(), 2);
    assert_eq!(states.key(0), "z2");
    assert_eq!(states.key(1), "z1");
    assert!(matches!(states.get("z1"), Some(ZoneScheduleState::Idle)));
    assert!(matches!(states.get("z2"), Some(ZoneScheduleState::Idle)));
}

#[test]
fn scheduler_start_is_recorded() {
    let mut shared = test_shared();
    scheduler_started(&mut shared, OperationMode::Auto, 2, now_at(0));
    scheduler_started(&mut shared, OperationMode::Monitor, 0, now_at(0));
    assert_eq!(
        scheduler_events(&shared),
        [
            "scheduler started (mode: Auto, max concurrent valves: 2)",
            "scheduler started (mode: Monitor, max concurrent valves: 0)",
        ]
    );
    assert_eq!(TICK_INTERVAL_SEC, 30);
    assert_eq!(AVG_WINDOW, 5);
}

#[test]
fn soak_end_is_held_within_the_clock() {
    let mut shared = test_shared();
    let mut tick = begin_tick(&shared);
    let mut cfg = test_zone_cfg();
    let mut state = ZoneScheduleState::Watering { since: 0 };
    cfg.soak_min = i64::MAX;
    publish_done(&mut tick, "z1", &cfg, false, true, level(0.1), &mut state, &mut shared, now_at(40));
    assert!(matches!(state, ZoneScheduleState::Soaking { until: u64::MAX }));
    cfg.soak_min = -3;
    publish_done(&mut tick, "z1", &cfg, false, true, level(0.1), &mut state, &mut shared, now_at(40));
    assert!(matches!(state, ZoneScheduleState::Soaking { until: 40 }));
    cfg.soak_min = 1;
    publish_done(&mut tick, "z1", &cfg, false, true, level(0.1), &mut state, &mut shared, now_at(40));
    assert!(matches!(state, ZoneScheduleState::Soaking { until: 100 }));
}
