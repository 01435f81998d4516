use irrigation::config::{
    default_max_concurrent_valves, default_max_open_sec_per_day, default_max_pulses_per_day,
    default_pulse_sec, default_soak_min, is_safe_pin, relay_active_low, zone_pins, Config,
    OperationMode, SensorEntry, ZoneEntry,
};
use irrigation::db::ZoneConfig;
use irrigation::level::Level;

// -- Helper: build a valid baseline config that passes validation ------

fn level(x: f32) -> Level {
    Level::from_bits(x.to_bits())
}

fn valid_zone() -> ZoneEntry {
    ZoneEntry {
        zone_id: "z1".into(),
        name: "Zone 1".into(),
        min_moisture: level(0.3),
        target_moisture: level(0.5),
        pulse_sec: 30,
        soak_min: 20,
        max_open_sec_per_day: 180,
        max_pulses_per_day: 6,
        stale_timeout_min: 30,
        valve_gpio_pin: 17,
    }
}

fn valid_sensor() -> SensorEntry {
    SensorEntry {
        sensor_id: "node-a/s1".into(),
        node_id: "node-a".into(),
        zone_id: "z1".into(),
        raw_dry: 26000,
        raw_wet: 12000,
    }
}

fn valid_config() -> Config {
    Config {
        mode: OperationMode::Auto,
        max_concurrent_valves: 2,
        zones: vec![valid_zone()],
        sensors: vec![valid_sensor()],
    }
}

fn monitor_config() -> Config {
    Config {
        mode: OperationMode::Monitor,
        max_concurrent_valves: 2,
        zones: vec![ZoneEntry {
            zone_id: "z1".into(),
            name: "Zone 1".into(),
            min_moisture: level(0.3),
            target_moisture: level(0.5),
            pulse_sec: 0,            // irrelevant in monitor mode
            soak_min: 0,             // irrelevant in monitor mode
            max_open_sec_per_day: 0, // irrelevant in monitor mode
            max_pulses_per_day: 0,   // irrelevant in monitor mode
            stale_timeout_min: 30,
            valve_gpio_pin: 0, // irrelevant in monitor mode
        }],
        sensors: vec![valid_sensor()],
    }
}

/// Assert validation fails and the error message contains `needle`.
fn assert_validation_err(cfg: &Config, needle: &str) {
    let msg = cfg.validate().unwrap_err();
    assert!(
        msg.contains(needle),
        "expected error containing {needle:?}, got: {msg}"
    );
}

// -- Validation: valid configs pass -----------------------------------

#[test]
fn valid_config_passes() {
    valid_config().validate().unwrap();
}

#[test]
fn empty_config_passes() {
    let cfg = Config {
        mode: OperationMode::Auto,
        max_concurrent_valves: 2,
        zones: vec![],
        sensors: vec![],
    };
    cfg.validate().unwrap();
}

#[test]
fn multi_zone_multi_sensor_passes() {
    let cfg = Config {
        mode: OperationMode::Auto,
        max_concurrent_valves: 2,
        zones: vec![
            ZoneEntry {
                zone_id: "z1".into(),
                valve_gpio_pin: 17,
                ..valid_zone()
            },
            ZoneEntry {
                zone_id: "z2".into(),
                name: "Zone 2".into(),
                valve_gpio_pin: 27,
                ..valid_zone()
            },
        ],
        sensors: vec![
            SensorEntry {
                sensor_id: "node-a/s1".into(),
                zone_id: "z1".into(),
                ..valid_sensor()
            },
            SensorEntry {
                sensor_id: "node-a/s2".into(),
                zone_id: "z2".into(),
                ..valid_sensor()
            },
        ],
    };
    cfg.validate().unwrap();
}

// -- Zone: identity ---------------------------------------------------

#[test]
fn zone_empty_id_rejected() {
    let mut cfg = valid_config();
    cfg.zones[0].zone_id = "".into();
    assert_validation_err(&cfg, "zone_id is empty");
}

#[test]
fn zone_duplicate_id_rejected() {
    let mut cfg = valid_config();
    cfg.zones.push(ZoneEntry {
        valve_gpio_pin: 27, // different pin, same id
        ..valid_zone()
    });
    assert_validation_err(&cfg, "duplicate zone_id");
}

#[test]
fn zone_empty_name_rejected() {
    let mut cfg = valid_config();
    cfg.zones[0].name = "  ".into();
    assert_validation_err(&cfg, "name is empty");
}

// -- Zone: moisture bounds --------------------------------------------

#[test]
fn zone_min_moisture_below_zero() {
    let mut cfg = valid_config();
    cfg.zones[0].min_moisture = level(-0.1);
    assert_validation_err(&cfg, "min_moisture");
}

#[test]
fn zone_min_moisture_above_one() {
    let mut cfg = valid_config();
    cfg.zones[0].min_moisture = level(1.01);
    assert_validation_err(&cfg, "min_moisture");
}

#[test]
fn zone_target_moisture_below_zero() {
    let mut cfg = valid_config();
    cfg.zones[0].target_moisture = level(-0.1);
    assert_validation_err(&cfg, "target_moisture");
}

#[test]
fn zone_target_moisture_above_one() {
    let mut cfg = valid_config();
    cfg.zones[0].target_moisture = level(1.5);
    assert_validation_err(&cfg, "target_moisture");
}

#[test]
fn zone_target_must_exceed_min() {
    let mut cfg = valid_config();
    cfg.zones[0].min_moisture = level(0.5);
    cfg.zones[0].target_moisture = level(0.5); // equal, not greater
    assert_validation_err(
        &cfg,
        "target_moisture (0.5) must be greater than min_moisture (0.5)",
    );
}

#[test]
fn zone_target_less_than_min() {
    let mut cfg = valid_config();
    cfg.zones[0].min_moisture = level(0.6);
    cfg.zones[0].target_moisture = level(0.4);
    assert_validation_err(&cfg, "must be greater than min_moisture");
}

// -- Zone: timing values ----------------------------------------------

#[test]
fn zone_pulse_sec_zero() {
    let mut cfg = valid_config();
    cfg.zones[0].pulse_sec = 0;
    assert_validation_err(&cfg, "pulse_sec must be positive");
}

#[test]
fn zone_pulse_sec_negative() {
    let mut cfg = valid_config();
    cfg.zones[0].pulse_sec = -5;
    assert_validation_err(&cfg, "pulse_sec must be positive");
}

#[test]
fn zone_soak_min_zero() {
    let mut cfg = valid_config();
    cfg.zones[0].soak_min = 0;
    assert_validation_err(&cfg, "soak_min must be positive");
}

#[test]
fn zone_max_open_sec_zero() {
    let mut cfg = valid_config();
    cfg.zones[0].max_open_sec_per_day = 0;
    assert_validation_err(&cfg, "max_open_sec_per_day must be positive");
}

#[test]
fn zone_max_pulses_zero() {
    let mut cfg = valid_config();
    cfg.zones[0].max_pulses_per_day = 0;
    assert_validation_err(&cfg, "max_pulses_per_day must be positive");
}

#[test]
fn zone_stale_timeout_zero() {
    let mut cfg = valid_config();
    cfg.zones[0].stale_timeout_min = 0;
    assert_validation_err(&cfg, "stale_timeout_min must be positive");
}

#[test]
fn zone_pulse_exceeds_daily_max() {
    let mut cfg = valid_config();
    cfg.zones[0].pulse_sec = 200;
    cfg.zones[0].max_open_sec_per_day = 100;
    assert_validation_err(&cfg, "pulse_sec (200) exceeds max_open_sec_per_day (100)");
}

// -- Zone: GPIO whitelist ---------------------------------------------

#[test]
fn zone_gpio_pin_0_rejected() {
    let mut cfg = valid_config();
    cfg.zones[0].valve_gpio_pin = 0;
    assert_validation_err(&cfg, "not a safe GPIO pin");
}

#[test]
fn zone_gpio_pin_1_rejected() {
    let mut cfg = valid_config();
    cfg.zones[0].valve_gpio_pin = 1;
    assert_validation_err(&cfg, "not a safe GPIO pin");
}

#[test]
fn zone_gpio_pin_28_rejected() {
    let mut cfg = valid_config();
    cfg.zones[0].valve_gpio_pin = 28;
    assert_validation_err(&cfg, "not a safe GPIO pin");
}

#[test]
fn zone_gpio_negative_rejected() {
    let mut cfg = valid_config();
    cfg.zones[0].valve_gpio_pin = -1;
    assert_validation_err(&cfg, "not a safe GPIO pin");
}

#[test]
fn zone_gpio_i2c_pin_2_rejected() {
    let mut cfg = valid_config();
    cfg.zones[0].valve_gpio_pin = 2;
    assert_validation_err(&cfg, "not a safe GPIO pin");
}

#[test]
fn zone_gpio_i2c_pin_3_rejected() {
    let mut cfg = valid_config();
    cfg.zones[0].valve_gpio_pin = 3;
    assert_validation_err(&cfg, "not a safe GPIO pin");
}

#[test]
fn zone_gpio_spi_pin_8_rejected() {
    let mut cfg = valid_config();
    cfg.zones[0].valve_gpio_pin = 8;
    assert_validation_err(&cfg, "not a safe GPIO pin");
}

#[test]
fn zone_gpio_uart_pin_14_rejected() {
    let mut cfg = valid_config();
    cfg.zones[0].valve_gpio_pin = 14;
    assert_validation_err(&cfg, "not a safe GPIO pin");
}

#[test]
fn zone_gpio_boundary_4_accepted() {
    let mut cfg = valid_config();
    cfg.zones[0].valve_gpio_pin = 4;
    cfg.validate().unwrap();
}

#[test]
fn zone_gpio_boundary_27_accepted() {
    let mut cfg = valid_config();
    cfg.zones[0].valve_gpio_pin = 27;
    cfg.validate().unwrap();
}

#[test]
fn zone_duplicate_gpio_rejected() {
    let cfg = Config {
        mode: OperationMode::Auto,
        max_concurrent_valves: 2,
        zones: vec![
            ZoneEntry {
                zone_id: "z1".into(),
                valve_gpio_pin: 17,
                ..valid_zone()
            },
            ZoneEntry {
                zone_id: "z2".into(),
                name: "Zone 2".into(),
                valve_gpio_pin: 17, // same pin!
                ..valid_zone()
            },
        ],
        sensors: vec![],
    };
    assert_validation_err(&cfg, "already used by another zone");
}

// -- Sensor: identity -------------------------------------------------

#[test]
fn sensor_empty_id_rejected() {
    let mut cfg = valid_config();
    cfg.sensors[0].sensor_id = "".into();
    assert_validation_err(&cfg, "sensor_id is empty");
}

#[test]
fn sensor_duplicate_id_rejected() {
    let mut cfg = valid_config();
    cfg.sensors.push(valid_sensor());
    assert_validation_err(&cfg, "duplicate sensor_id");
}

#[test]
fn sensor_empty_node_id_rejected() {
    let mut cfg = valid_config();
    cfg.sensors[0].node_id = " ".into();
    assert_validation_err(&cfg, "node_id is empty");
}

#[test]
fn sensor_empty_zone_id_rejected() {
    let mut cfg = valid_config();
    cfg.sensors[0].zone_id = "".into();
    assert_validation_err(&cfg, "zone_id is empty");
}

#[test]
fn sensor_unknown_zone_rejected() {
    let mut cfg = valid_config();
    cfg.sensors[0].zone_id = "nonexistent".into();
    assert_validation_err(&cfg, "does not match any defined zone");
}

// -- Sensor: ADC calibration ------------------------------------------

#[test]
fn sensor_raw_dry_negative() {
    let mut cfg = valid_config();
    cfg.sensors[0].raw_dry = -1;
    assert_validation_err(&cfg, "raw_dry -1 out of ADS1115 range");
}

#[test]
fn sensor_raw_dry_too_high() {
    let mut cfg = valid_config();
    cfg.sensors[0].raw_dry = 40000;
    assert_validation_err(&cfg, "raw_dry 40000 out of ADS1115 range");
}

#[test]
fn sensor_raw_wet_negative() {
    let mut cfg = valid_config();
    cfg.sensors[0].raw_wet = -100;
    assert_validation_err(&cfg, "raw_wet -100 out of ADS1115 range");
}

#[test]
fn sensor_raw_wet_too_high() {
    let mut cfg = valid_config();
    cfg.sensors[0].raw_wet = 32768;
    assert_validation_err(&cfg, "raw_wet 32768 out of ADS1115 range");
}

#[test]
fn sensor_raw_dry_equals_wet() {
    let mut cfg = valid_config();
    cfg.sensors[0].raw_dry = 15000;
    cfg.sensors[0].raw_wet = 15000;
    assert_validation_err(&cfg, "calibration range is zero");
}

// -- Multiple errors reported at once ---------------------------------

#[test]
fn multiple_errors_collected() {
    let cfg = Config {
        mode: OperationMode::Auto,
        max_concurrent_valves: 2,
        zones: vec![ZoneEntry {
            zone_id: "".into(),
            name: "".into(),
            min_moisture: level(-1.0),
            target_moisture: level(2.0),
            pulse_sec: -1,
            soak_min: 0,
            max_open_sec_per_day: 0,
            max_pulses_per_day: 0,
            stale_timeout_min: 0,
            valve_gpio_pin: 0,
        }],
        sensors: vec![],
    };
    let msg = cfg.validate().unwrap_err();
    // Should report many errors, not bail after the first
    assert!(
        msg.contains("zone_id is empty"),
        "missing zone_id error in: {msg}"
    );
    assert!(
        msg.contains("min_moisture"),
        "missing moisture error in: {msg}"
    );
    assert!(
        msg.contains("not a safe GPIO pin"),
        "missing gpio error in: {msg}"
    );
}

// -- max_concurrent_valves --------------------------------------------

#[test]
fn max_concurrent_valves_zero_rejected_auto_mode() {
    let cfg = Config {
        max_concurrent_valves: 0,
        ..valid_config()
    };
    assert_validation_err(&cfg, "max_concurrent_valves must be at least 1");
}

#[test]
fn max_concurrent_valves_zero_allowed_monitor_mode() {
    let cfg = Config {
        max_concurrent_valves: 0,
        ..monitor_config()
    };
    cfg.validate().unwrap();
}

#[test]
fn max_concurrent_valves_one_accepted() {
    let cfg = Config {
        max_concurrent_valves: 1,
        ..valid_config()
    };
    cfg.validate().unwrap();
}

// -- Operation mode ---------------------------------------------------

#[test]
fn monitor_mode_minimal_zone_config_passes() {
    // Monitor mode: valve-specific fields default to zero/sensible values.
    // Validation should pass even with zero pulse_sec, valve_gpio_pin=0, etc.
    monitor_config().validate().unwrap();
}

#[test]
fn monitor_mode_skips_gpio_validation() {
    let mut cfg = monitor_config();
    cfg.zones[0].valve_gpio_pin = 0; // would fail in auto mode
    cfg.validate().unwrap();
}

#[test]
fn monitor_mode_skips_pulse_sec_validation() {
    let mut cfg = monitor_config();
    cfg.zones[0].pulse_sec = 0; // would fail in auto mode
    cfg.validate().unwrap();
}

#[test]
fn monitor_mode_still_validates_identity() {
    let mut cfg = monitor_config();
    cfg.zones[0].zone_id = "".into();
    assert_validation_err(&cfg, "zone_id is empty");
}

#[test]
fn monitor_mode_still_validates_moisture_bounds() {
    let mut cfg = monitor_config();
    cfg.zones[0].min_moisture = level(-0.1);
    assert_validation_err(&cfg, "min_moisture");
}

#[test]
fn monitor_mode_still_validates_stale_timeout() {
    let mut cfg = monitor_config();
    cfg.zones[0].stale_timeout_min = 0;
    assert_validation_err(&cfg, "stale_timeout_min must be positive");
}

#[test]
fn auto_mode_still_requires_positive_pulse_sec() {
    let mut cfg = valid_config();
    cfg.zones[0].pulse_sec = 0;
    assert_validation_err(&cfg, "pulse_sec must be positive");
}

#[test]
fn auto_mode_still_requires_valid_gpio() {
    let mut cfg = valid_config();
    cfg.zones[0].valve_gpio_pin = 0;
    assert_validation_err(&cfg, "not a safe GPIO pin");
}

// -- The exact texts -------------------------------------------------------

#[test]
fn one_error_is_counted_in_the_singular() {
    let mut cfg = valid_config();
    cfg.zones[0].name = "".into();
    assert_eq!(
        cfg.validate().unwrap_err(),
        "config validation failed (1 error):\n  - zone 'z1': name is empty"
    );
}

#[test]
fn all_errors_are_listed_in_order() {
    let cfg = Config {
        mode: OperationMode::Auto,
        max_concurrent_valves: 0,
        zones: vec![ZoneEntry {
            zone_id: "".into(),
            name: "".into(),
            min_moisture: level(-1.0),
            target_moisture: level(2.0),
            pulse_sec: -1,
            soak_min: 0,
            max_open_sec_per_day: 0,
            max_pulses_per_day: 0,
            stale_timeout_min: 0,
            valve_gpio_pin: 0,
        }],
        sensors: vec![SensorEntry {
            sensor_id: "".into(),
            node_id: "".into(),
            zone_id: "zz".into(),
            raw_dry: -1,
            raw_wet: 32768,
        }],
    };
    let expected = [
        "max_concurrent_valves must be at least 1",
        "zones[0]: zone_id is empty",
        "zones[0]: name is empty",
        "zones[0]: min_moisture -1 out of range [0.0, 1.0]",
        "zones[0]: target_moisture 2 out of range [0.0, 1.0]",
        "zones[0]: pulse_sec must be positive, got -1",
        "zones[0]: soak_min must be positive, got 0",
        "zones[0]: max_open_sec_per_day must be positive, got 0",
        "zones[0]: max_pulses_per_day must be positive, got 0",
        "zones[0]: stale_timeout_min must be positive, got 0",
        "zones[0]: valve_gpio_pin 0 is not a safe GPIO pin (allowed: [4, 5, 6, 12, 13, 16, 17, 18, 19, 20, 21, 22, 23, 24, 25, 26, 27])",
        "sensors[0]: sensor_id is empty",
        "sensors[0]: node_id is empty",
        "sensors[0]: zone_id 'zz' does not match any defined zone",
        "sensors[0]: raw_dry -1 out of ADS1115 range [0, 32767]",
        "sensors[0]: raw_wet 32768 out of ADS1115 range [0, 32767]",
    ];
    assert_eq!(cfg.problems(), expected);
    assert_eq!(
        cfg.validate().unwrap_err(),
        format!(
            "config validation failed (16 errors):\n  - {}",
            expected.join("\n  - ")
        )
    );
}

#[test]
fn moisture_errors_show_the_values() {
    let mut cfg = valid_config();
    cfg.zones[0].min_moisture = level(-0.1);
    cfg.zones[0].target_moisture = level(1.5);
    assert_eq!(
        cfg.problems(),
        [
            "zone 'z1': min_moisture -0.1 out of range [0.0, 1.0]",
            "zone 'z1': target_moisture 1.5 out of range [0.0, 1.0]",
        ]
    );
    cfg.zones[0].min_moisture = level(f32::NAN);
    cfg.zones[0].target_moisture = level(f32::INFINITY);
    assert_eq!(
        cfg.problems(),
        [
            "zone 'z1': min_moisture NaN out of range [0.0, 1.0]",
            "zone 'z1': target_moisture inf out of range [0.0, 1.0]",
        ]
    );
    cfg.zones[0].min_moisture = level(0.6);
    cfg.zones[0].target_moisture = level(0.4);
    assert_eq!(
        cfg.problems(),
        ["zone 'z1': target_moisture (0.4) must be greater than min_moisture (0.6)"]
    );
}

#[test]
fn moisture_bounds_are_closed() {
    let mut cfg = valid_config();
    cfg.zones[0].min_moisture = level(0.0);
    cfg.zones[0].target_moisture = level(1.0);
    cfg.validate().unwrap();
    cfg.zones[0].min_moisture = level(-0.0);
    cfg.validate().unwrap();
    cfg.zones[0].target_moisture = Level::from_bits(1.0f32.to_bits() + 1);
    assert_validation_err(&cfg, "target_moisture");
    cfg.zones[0].target_moisture = level(1.0);
    cfg.zones[0].min_moisture = Level::from_bits((-0.0f32).to_bits() + 1);
    assert_validation_err(&cfg, "min_moisture");
}

#[test]
fn duplicates_are_reported_at_the_later_entry() {
    let mut cfg = valid_config();
    cfg.zones.push(ZoneEntry { name: "Again".into(), ..valid_zone() });
    assert_eq!(
        cfg.problems(),
        [
            "zone 'z1': duplicate zone_id",
            "zone 'z1': valve_gpio_pin 17 is already used by another zone",
        ]
    );
}

#[test]
fn pulse_may_equal_the_daily_open_seconds() {
    let mut cfg = valid_config();
    cfg.zones[0].pulse_sec = 180;
    cfg.validate().unwrap();
    cfg.zones[0].pulse_sec = 181;
    assert_validation_err(&cfg, "pulse_sec (181) exceeds max_open_sec_per_day (180)");
}

#[test]
fn safe_pins_are_the_seventeen_of_the_list() {
    let safe = [4, 5, 6, 12, 13, 16, 17, 18, 19, 20, 21, 22, 23, 24, 25, 26, 27];
    for pin in -5..40 {
        assert_eq!(is_safe_pin(pin), safe.contains(&pin), "pin {pin}");
    }
    assert!(!is_safe_pin(i64::MIN));
    assert!(!is_safe_pin(i64::MAX));
}

#[test]
fn defaults() {
    assert_eq!(default_max_concurrent_valves(), 2);
    assert_eq!(default_pulse_sec(), 30);
    assert_eq!(default_soak_min(), 20);
    assert_eq!(default_max_open_sec_per_day(), 180);
    assert_eq!(default_max_pulses_per_day(), 6);
    assert_eq!(OperationMode::default(), OperationMode::Auto);
}

#[test]
fn entries_become_store_settings() {
    let z = valid_zone().to_config();
    assert_eq!(z.zone_id, "z1");
    assert_eq!(z.name, "Zone 1");
    assert_eq!(z.min_moisture.bits, 0.3f32.to_bits());
    assert_eq!(z.target_moisture.bits, 0.5f32.to_bits());
    assert_eq!(
        (z.pulse_sec, z.soak_min, z.max_open_sec_per_day, z.max_pulses_per_day),
        (30, 20, 180, 6)
    );
    assert_eq!((z.stale_timeout_min, z.valve_gpio_pin), (30, 17));
    let s = valid_sensor().to_config();
    assert_eq!(s.sensor_id, "node-a/s1");
    assert_eq!(s.node_id, "node-a");
    assert_eq!(s.zone_id, "z1");
    assert_eq!((s.raw_dry, s.raw_wet), (26000, 12000));
}

fn zone_config(id: &str, pin: i64) -> ZoneConfig {
    ZoneConfig { zone_id: id.into(), valve_gpio_pin: pin, ..valid_zone().to_config() }
}

#[test]
fn zone_pins_by_mode() {
    let zones = vec![zone_config("z1", 17), zone_config("z2", 27)];
    assert_eq!(
        zone_pins(&zones, OperationMode::Auto).unwrap(),
        vec![("z1".to_string(), 17u8), ("z2".to_string(), 27u8)]
    );
    assert!(zone_pins(&zones, OperationMode::Monitor).unwrap().is_empty());
    let bad = vec![zone_config("z1", 17), zone_config("z2", 256), zone_config("z3", -1)];
    assert_eq!(
        zone_pins(&bad, OperationMode::Auto).unwrap_err(),
        "zone 'z2': valve_gpio_pin 256 out of u8 range"
    );
    assert!(zone_pins(&bad, OperationMode::Monitor).unwrap().is_empty());
    assert_eq!(
        zone_pins(&vec![zone_config("z", 255), zone_config("y", 0)], OperationMode::Auto).unwrap(),
        vec![("z".to_string(), 255u8), ("y".to_string(), 0u8)]
    );
}

#[test]
fn relay_polarity_from_the_environment() {
    assert!(relay_active_low(None));
    assert!(relay_active_low(Some("1")));
    assert!(relay_active_low(Some("true")));
    assert!(relay_active_low(Some("TRUE")));
    assert!(relay_active_low(Some("True")));
    assert!(!relay_active_low(Some("0")));
    assert!(!relay_active_low(Some("false")));
    assert!(!relay_active_low(Some("")));
    assert!(!relay_active_low(Some("yes")));
    assert!(!relay_active_low(Some(" true")));
}
