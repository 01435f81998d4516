use irrigation::db::ZoneConfig;
use irrigation::ingest::{open_valve, Now};
use irrigation::safety::CounterRead;
use irrigation::state::{EventKind, SensorReading, SystemState};
use irrigation::supervisor::{
    heartbeat_check, on_bus_error, on_connected, on_disconnected, on_packet, on_task_exit,
    shutdown, ErrorStreak, GraceOutcome, Task, DEFAULT_NODE_STALE_TIMEOUT_MIN,
    HEARTBEAT_CHECK_INTERVAL_SEC, MQTT_GRACE_PERIOD_SEC, PRUNE_INTERVAL_SEC, RETENTION_DAYS,
};
use irrigation::table::Table;
use irrigation::valve::{PinWrite, ValveBoard};

fn now_at(mono_secs: u64) -> Now {
    Now {
        mono_secs,
        unix_secs: 1_700_000_000 + mono_secs as i64,
        unix_nanos: (1_700_000_000 + mono_secs as i128) * 1_000_000_000,
    }
}

struct Hub {
    valves: ValveBoard,
    opened: Table<u64>,
    shared: SystemState,
}

fn hub() -> Hub {
    let pins = vec![("z1".to_string(), 17u8), ("z2".to_string(), 27u8)];
    let mut shared = SystemState::new(&pins, "auto");
    shared.set_mqtt_connected(true);
    Hub { valves: ValveBoard::new(&pins, true), opened: Table::new(), shared }
}

fn open(h: &mut Hub, zone_id: &str, at: u64) {
    let configs: Table<ZoneConfig> = Table::new();
    open_valve(zone_id, &configs, &mut h.valves, &mut h.opened, CounterRead::Failed, &mut h.shared, 2, now_at(at));
}

fn details(shared: &SystemState, kind: EventKind) -> Vec<String> {
    shared.events().iter().filter(|e| e.kind == kind).map(|e| e.detail.clone()).collect()
}

#[test]
fn supervisor_constants() {
    assert_eq!(MQTT_GRACE_PERIOD_SEC, 60);
    assert_eq!(PRUNE_INTERVAL_SEC, 6 * 3600);
    assert_eq!(RETENTION_DAYS, 90);
    assert_eq!(HEARTBEAT_CHECK_INTERVAL_SEC, 60);
    assert_eq!(DEFAULT_NODE_STALE_TIMEOUT_MIN, 10);
}

// -- Grace period -----------------------------------------------------------

#[test]
fn first_error_starts_the_streak_and_marks_the_bus_down() {
    let mut h = hub();
    let mut streak = ErrorStreak::new();
    let out = on_bus_error(&mut streak, "connection refused", &mut h.valves, &mut h.opened, &mut h.shared, now_at(100));
    assert!(matches!(out, GraceOutcome::NoValvesOpen));
    assert_eq!((streak.first_error_at, streak.error_count), (Some(100), 1));
    assert!(!h.shared.mqtt_connected());
    assert_eq!(details(&h.shared, EventKind::System), ["mqtt error: connection refused"]);
    // Further errors of the run add no event.
    let out = on_bus_error(&mut streak, "connection refused", &mut h.valves, &mut h.opened, &mut h.shared, now_at(102));
    assert!(matches!(out, GraceOutcome::NoValvesOpen));
    assert_eq!((streak.first_error_at, streak.error_count), (Some(100), 2));
    assert_eq!(h.shared.events().len(), 1);
}

#[test]
fn errors_without_open_valves_never_switch_anything_off() {
    let mut h = hub();
    let mut streak = ErrorStreak::new();
    for at in (0..1000).step_by(2) {
        let out = on_bus_error(&mut streak, "down", &mut h.valves, &mut h.opened, &mut h.shared, now_at(at));
        assert!(matches!(out, GraceOutcome::NoValvesOpen));
    }
    assert_eq!(streak.error_count, 500);
    assert_eq!(streak.first_error_at, Some(0));
}

#[test]
fn grace_period_with_an_open_valve() {
    let mut h = hub();
    open(&mut h, "z1", 0);
    let mut streak = ErrorStreak::new();
    let out = on_bus_error(&mut streak, "down", &mut h.valves, &mut h.opened, &mut h.shared, now_at(10));
    assert!(matches!(out, GraceOutcome::GraceActive { remaining_secs: 60 }));
    let out = on_bus_error(&mut streak, "down", &mut h.valves, &mut h.opened, &mut h.shared, now_at(40));
    assert!(matches!(out, GraceOutcome::GraceActive { remaining_secs: 30 }));
    let out = on_bus_error(&mut streak, "down", &mut h.valves, &mut h.opened, &mut h.shared, now_at(69));
    assert!(matches!(out, GraceOutcome::GraceActive { remaining_secs: 1 }));
    assert_eq!(h.valves.is_on("z1"), Some(true));
    let out = on_bus_error(&mut streak, "down", &mut h.valves, &mut h.opened, &mut h.shared, now_at(70));
    match out {
        GraceOutcome::EmergencyOff { writes } => assert_eq!(
            writes,
            vec![PinWrite { gpio_pin: 17, high: true }, PinWrite { gpio_pin: 27, high: true }]
        ),
        other => panic!("expected an emergency, got {other:?}"),
    }
    assert_eq!(h.valves.is_on("z1"), Some(false));
    assert_eq!(h.opened.len(), 0);
    assert_eq!(h.shared.active_zones(), 0);
    assert_eq!((streak.first_error_at, streak.error_count), (None, 0));
    assert_eq!(
        details(&h.shared, EventKind::Error),
        ["all valves off: mqtt error: down (60s grace period expired, 4 consecutive errors)"]
    );
}

#[test]
fn a_packet_ends_the_streak() {
    let mut h = hub();
    open(&mut h, "z1", 0);
    let mut streak = ErrorStreak::new();
    assert_eq!(on_packet(&mut streak, true, false), None);
    on_bus_error(&mut streak, "down", &mut h.valves, &mut h.opened, &mut h.shared, now_at(10));
    on_bus_error(&mut streak, "down", &mut h.valves, &mut h.opened, &mut h.shared, now_at(12));
    // Neither what goes out nor a disconnect proves that the broker is there.
    assert_eq!(on_packet(&mut streak, false, false), None);
    assert_eq!(on_packet(&mut streak, true, true), None);
    assert_eq!(streak.error_count, 2);
    assert_eq!(on_packet(&mut streak, true, false), Some(2));
    assert_eq!((streak.first_error_at, streak.error_count), (None, 0));
    // The next error starts a new grace period.
    let out = on_bus_error(&mut streak, "down", &mut h.valves, &mut h.opened, &mut h.shared, now_at(100));
    assert!(matches!(out, GraceOutcome::GraceActive { remaining_secs: 60 }));
    assert_eq!(h.valves.is_on("z1"), Some(true));
}

#[test]
fn a_valve_that_opens_late_in_a_streak_finds_the_grace_used_up() {
    let mut h = hub();
    let mut streak = ErrorStreak::new();
    on_bus_error(&mut streak, "down", &mut h.valves, &mut h.opened, &mut h.shared, now_at(0));
    open(&mut h, "z1", 90);
    let out = on_bus_error(&mut streak, "down", &mut h.valves, &mut h.opened, &mut h.shared, now_at(92));
    assert!(matches!(out, GraceOutcome::EmergencyOff { .. }));
    assert_eq!(h.valves.is_on("z1"), Some(false));
}

// -- Connection events --------------------------------------------------------

#[test]
fn connection_events() {
    let mut shared = SystemState::new(&[], "auto");
    on_connected(&mut shared, now_at(1));
    assert!(shared.mqtt_connected());
    on_disconnected(&mut shared, now_at(2));
    assert!(!shared.mqtt_connected());
    assert_eq!(details(&shared, EventKind::System), ["mqtt connected", "mqtt disconnected"]);
}

// -- Task death and shutdown -----------------------------------------------------

#[test]
fn only_scheduler_and_watchdog_are_safety_critical() {
    assert_eq!(on_task_exit(Task::Watchdog), Some("watchdog task died"));
    assert_eq!(on_task_exit(Task::Scheduler), Some("scheduler task died"));
    assert_eq!(on_task_exit(Task::Web), None);
    assert_eq!(on_task_exit(Task::Pruner), None);
    assert_eq!(on_task_exit(Task::Backup), None);
    assert_eq!(on_task_exit(Task::Heartbeat), None);
}

#[test]
fn shutdown_leaves_every_pin_at_its_off_level() {
    for active_low in [true, false] {
        let pins = vec![("z1".to_string(), 17u8), ("z2".to_string(), 27u8), ("z3".to_string(), 5u8)];
        let mut h = Hub {
            valves: ValveBoard::new(&pins, active_low),
            opened: Table::new(),
            shared: SystemState::new(&pins, "auto"),
        };
        open(&mut h, "z1", 0);
        open(&mut h, "z3", 1);
        let writes = shutdown(&mut h.valves, &mut h.opened, &mut h.shared, "SIGTERM", now_at(5));
        // Replay all writes since the start on the pins, which start off.
        let mut pin_levels = std::collections::HashMap::new();
        for (_, pin) in &pins {
            pin_levels.insert(*pin, h.valves.off_level());
        }
        pin_levels.insert(17, !h.valves.off_level());
        pin_levels.insert(5, !h.valves.off_level());
        for w in &writes {
            pin_levels.insert(w.gpio_pin, w.high);
        }
        assert_eq!(writes.len(), 3);
        for (_, pin) in &pins {
            assert_eq!(pin_levels[pin], active_low);
        }
        assert_eq!(h.shared.active_zones(), 0);
        assert_eq!(h.opened.len(), 0);
        assert_eq!(details(&h.shared, EventKind::Error), ["all valves off: shutdown: SIGTERM"]);
    }
}

// -- Heartbeat ----------------------------------------------------------------

const MINUTE: i128 = 60_000_000_000;

fn at_nanos(unix_nanos: i128) -> Now {
    Now { mono_secs: 0, unix_secs: (unix_nanos / 1_000_000_000) as i64, unix_nanos }
}

#[test]
fn a_silent_node_is_reported_once_and_its_return_once() {
    let mut shared = SystemState::new(&[("z1".to_string(), 17)], "auto");
    shared.record_valve_at(0, "z1", true);
    shared.record_reading_at(0, "node-a", vec![SensorReading { sensor_id: "s1".into(), raw: 1 }]);
    shared.record_node_status_at(5 * MINUTE, "node-b", true);
    let mut warned: Table<()> = Table::new();
    let before = shared.events().len();

    // Exactly at the timeout a node is not stale yet.
    heartbeat_check(&mut shared, &mut warned, 10, at_nanos(10 * MINUTE));
    assert_eq!(shared.events().len(), before);
    heartbeat_check(&mut shared, &mut warned, 10, at_nanos(10 * MINUTE + 1));
    assert_eq!(details(&shared, EventKind::Error), ["node node-a stale — last seen 10 min ago"]);
    assert!(warned.contains_key("node-a"));
    assert!(!warned.contains_key("node-b"));

    // Reported once only.
    heartbeat_check(&mut shared, &mut warned, 10, at_nanos(12 * MINUTE));
    assert_eq!(details(&shared, EventKind::Error).len(), 1);

    // node-b goes stale as node-a comes back: stale first, recovered after.
    shared.record_reading_at(16 * MINUTE, "node-a", vec![]);
    let before = shared.events().len();
    heartbeat_check(&mut shared, &mut warned, 10, at_nanos(17 * MINUTE + 30_000_000_000));
    let new: Vec<String> = shared.events().iter().skip(before).map(|e| e.detail.clone()).collect();
    assert_eq!(
        new,
        ["node node-b stale — last seen 12 min ago", "node node-a recovered from stale state"]
    );
    assert!(!warned.contains_key("node-a"));
    assert!(warned.contains_key("node-b"));

    // Nothing of this touches a valve.
    assert!(shared.zone_is_on("z1"));
}

#[test]
fn heartbeat_with_odd_clocks() {
    let mut shared = SystemState::new(&[], "auto");
    shared.record_node_status_at(100 * MINUTE, "future", true);
    shared.record_node_status_at(i128::MIN, "ancient", true);
    let mut warned: Table<()> = Table::new();
    heartbeat_check(&mut shared, &mut warned, 10, at_nanos(0));
    assert_eq!(
        details(&shared, EventKind::Error),
        [format!("node ancient stale — last seen {} min ago", i64::MAX)]
    );
    // With a timeout below zero even a node from the future is stale.
    heartbeat_check(&mut shared, &mut warned, -200, at_nanos(0));
    assert_eq!(
        details(&shared, EventKind::Error)[1],
        "node future stale — last seen -100 min ago"
    );
}
