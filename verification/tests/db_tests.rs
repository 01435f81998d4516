use irrigation::db::{
    backup_temp_path, compute_moisture, db_file_path, format_day, is_reading_plausible,
    needs_restore, prune_cutoff, today_yyyy_mm_dd, vacuum_into_statement,
};
use irrigation::level::Moisture;

fn fraction(m: Moisture) -> f32 {
    (m.num as f64 / m.den as f64) as f32
}

// -- compute_moisture -----------------------------------------------------

#[test]
fn compute_moisture_mid_range() {
    let m = fraction(compute_moisture(19000, 26000, 12000));
    assert!((m - 0.5).abs() < 0.01);
}

#[test]
fn compute_moisture_bone_dry() {
    let m = fraction(compute_moisture(26000, 26000, 12000));
    assert!((m - 0.0).abs() < 0.01);
}

#[test]
fn compute_moisture_saturated() {
    let m = fraction(compute_moisture(12000, 26000, 12000));
    assert!((m - 1.0).abs() < 0.01);
}

#[test]
fn compute_moisture_clamped_below() {
    let m = fraction(compute_moisture(30000, 26000, 12000));
    assert_eq!(m, 0.0);
}

#[test]
fn compute_moisture_clamped_above() {
    let m = fraction(compute_moisture(5000, 26000, 12000));
    assert_eq!(m, 1.0);
}

#[test]
fn compute_moisture_degenerate_calibration() {
    let m = fraction(compute_moisture(20000, 15000, 15000));
    assert_eq!(m, 0.0);
}

#[test]
fn compute_moisture_exact_fraction() {
    let m = compute_moisture(19000, 26000, 12000);
    assert_eq!((m.num, m.den), (7000, 14000));
    let m = compute_moisture(22500, 26000, 12000);
    assert_eq!((m.num, m.den), (3500, 14000));
}

#[test]
fn compute_moisture_inverted_calibration() {
    // Wet end above dry end: the fraction still runs from dry to wet.
    let m = compute_moisture(19000, 12000, 26000);
    assert_eq!((m.num, m.den), (7000, 14000));
    let m = compute_moisture(5000, 12000, 26000);
    assert_eq!((m.num, m.den), (0, 14000));
    let m = compute_moisture(30000, 12000, 26000);
    assert_eq!((m.num, m.den), (14000, 14000));
}

#[test]
fn compute_moisture_extreme_inputs_stay_in_unit_interval() {
    let cases = [
        (i64::MIN, i64::MAX, i64::MIN),
        (i64::MAX, i64::MAX, i64::MIN),
        (0, i64::MIN, i64::MAX),
        (i64::MAX, i64::MIN, i64::MAX),
        (i64::MIN, 0, 0),
    ];
    for (raw, dry, wet) in cases {
        let m = compute_moisture(raw, dry, wet);
        assert!(m.den > 0);
        assert!(m.num <= m.den);
    }
    let m = compute_moisture(i64::MIN, i64::MAX, i64::MIN);
    assert_eq!((m.num, m.den), (u64::MAX, u64::MAX));
}

// -- is_reading_plausible ---------------------------------------------------

#[test]
fn plausible_reading_in_range() {
    assert!(is_reading_plausible(20000, 26000, 12000));
}

#[test]
fn plausible_reading_at_dry() {
    assert!(is_reading_plausible(26000, 26000, 12000));
}

#[test]
fn plausible_reading_at_wet() {
    assert!(is_reading_plausible(12000, 26000, 12000));
}

#[test]
fn plausible_reading_slightly_beyond_range() {
    // Within the margin — still plausible
    assert!(is_reading_plausible(28000, 26000, 12000));
    assert!(is_reading_plausible(10000, 26000, 12000));
}

#[test]
fn implausible_reading_disconnected_sensor() {
    // An open converter input reads about 32767
    assert!(!is_reading_plausible(32767, 26000, 12000));
}

#[test]
fn implausible_reading_shorted_sensor() {
    // Shorted to ground reads about 0
    assert!(!is_reading_plausible(0, 26000, 12000));
}

#[test]
fn plausible_with_inverted_calibration() {
    // Some sensors have raw_wet > raw_dry
    assert!(is_reading_plausible(20000, 12000, 26000));
    assert!(!is_reading_plausible(32767, 12000, 26000));
}

#[test]
fn plausible_margin_is_exactly_3000() {
    assert!(is_reading_plausible(29000, 26000, 12000));
    assert!(!is_reading_plausible(29001, 26000, 12000));
    assert!(is_reading_plausible(9000, 26000, 12000));
    assert!(!is_reading_plausible(8999, 26000, 12000));
    assert!(is_reading_plausible(i64::MAX, i64::MAX, 0));
    assert!(!is_reading_plausible(i64::MIN, i64::MAX, 0));
}

// -- db_file_path -------------------------------------------------------------

#[test]
fn file_path_absolute_with_query() {
    assert_eq!(
        db_file_path("sqlite:/home/pi/irrigation.db?mode=rwc"),
        Some("/home/pi/irrigation.db".to_string())
    );
}

#[test]
fn file_path_relative() {
    assert_eq!(
        db_file_path("sqlite:irrigation.db?mode=rwc"),
        Some("irrigation.db".to_string())
    );
}

#[test]
fn file_path_no_query_string() {
    assert_eq!(
        db_file_path("sqlite:/tmp/test.db"),
        Some("/tmp/test.db".to_string())
    );
}

#[test]
fn file_path_memory_returns_none() {
    assert_eq!(db_file_path("sqlite::memory:"), None);
}

#[test]
fn file_path_non_sqlite_returns_none() {
    assert_eq!(db_file_path("postgres://localhost/db"), None);
}

#[test]
fn file_path_empty_path_returns_none() {
    assert_eq!(db_file_path("sqlite:"), None);
    assert_eq!(db_file_path("sqlite:?mode=rwc"), None);
    assert_eq!(db_file_path(""), None);
    assert_eq!(db_file_path("sqlite"), None);
}

// -- day keys, pruning, backup ---------------------------------------------------

#[test]
fn format_day_pads_with_zeros() {
    assert_eq!(format_day(2025, 6, 1), "2025-06-01");
    assert_eq!(format_day(2025, 12, 31), "2025-12-31");
    assert_eq!(format_day(987, 1, 2), "0987-01-02");
    assert_eq!(format_day(-5, 1, 2), "-005-01-02");
    assert_eq!(format_day(12345, 10, 20), "12345-10-20");
}

#[test]
fn today_is_a_day_key() {
    let day = today_yyyy_mm_dd();
    let parts: Vec<&str> = day.split('-').collect();
    assert_eq!(parts.len(), 3);
    assert_eq!(parts[0].len(), 4);
    assert_eq!(parts[1].len(), 2);
    assert_eq!(parts[2].len(), 2);
    let month: u32 = parts[1].parse().unwrap();
    let dom: u32 = parts[2].parse().unwrap();
    assert!((1..=12).contains(&month));
    assert!((1..=31).contains(&dom));
}

#[test]
fn prune_cutoff_is_days_before_now() {
    assert_eq!(prune_cutoff(1_700_000_000, 90), 1_700_000_000 - 90 * 86400);
    assert_eq!(prune_cutoff(0, 0), 0);
    assert_eq!(prune_cutoff(100, -1), 100 + 86400);
    assert_eq!(prune_cutoff(i64::MIN, i64::MAX), i64::MIN);
    assert_eq!(prune_cutoff(i64::MAX, i64::MIN), i64::MAX);
}

#[test]
fn needs_restore_only_for_missing_or_empty_working_file() {
    assert!(!needs_restore(false, None));
    assert!(!needs_restore(false, Some(0)));
    assert!(!needs_restore(false, Some(10)));
    assert!(needs_restore(true, None));
    assert!(needs_restore(true, Some(0)));
    assert!(!needs_restore(true, Some(8)));
}

#[test]
fn backup_statement_doubles_quotes() {
    assert_eq!(backup_temp_path("/data/b.db"), "/data/b.db.tmp");
    assert_eq!(vacuum_into_statement("/data/b.db.tmp"), "VACUUM INTO '/data/b.db.tmp'");
    assert_eq!(vacuum_into_statement("it's.db"), "VACUUM INTO 'it''s.db'");
    assert_eq!(vacuum_into_statement("''"), "VACUUM INTO ''''''");
    assert_eq!(vacuum_into_statement(""), "VACUUM INTO ''");
}
