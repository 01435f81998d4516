use irrigation::clock::now_unix;
use irrigation::sim::{watering_of, Scenario};

#[test]
fn now_unix_returns_positive() {
    assert!(now_unix() > 0);
}

#[test]
fn now_unix_is_recent() {
    let ts = now_unix();
    // Should be after 2024-01-01 (1704067200) and before 2040-01-01 (2208988800)
    assert!(ts > 1_704_067_200, "timestamp too old: {ts}");
    assert!(ts < 2_208_988_800, "timestamp too far in future: {ts}");
}

#[test]
fn scenario_from_str_lossy() {
    assert_eq!(Scenario::from_str_lossy("drying"), Scenario::Drying);
    assert_eq!(Scenario::from_str_lossy("STABLE"), Scenario::Stable);
    assert_eq!(Scenario::from_str_lossy("Flaky"), Scenario::Flaky);
    assert_eq!(Scenario::from_str_lossy("wet"), Scenario::Wet);
    assert_eq!(Scenario::from_str_lossy("unknown"), Scenario::Drying);
    assert_eq!(Scenario::from_str_lossy(""), Scenario::Drying);
}

#[test]
fn scenario_display() {
    assert_eq!(Scenario::Drying.name(), "drying");
    assert_eq!(Scenario::Stable.name(), "stable");
    assert_eq!(Scenario::Flaky.name(), "flaky");
    assert_eq!(Scenario::Wet.name(), "wet");
}

#[test]
fn scenario_names_are_read_back() {
    for s in [Scenario::Drying, Scenario::Stable, Scenario::Flaky, Scenario::Wet] {
        assert_eq!(Scenario::from_str_lossy(s.name()), s);
        assert_eq!(Scenario::from_str_lossy(&s.name().to_uppercase()), s);
    }
    assert_eq!(Scenario::from_str_lossy(" wet"), Scenario::Drying);
    assert_eq!(Scenario::from_str_lossy("wett"), Scenario::Drying);
    // Only ASCII letters are compared without their case.
    assert_eq!(Scenario::from_str_lossy("ſtable"), Scenario::Drying);
}

#[test]
fn simulated_soil_listens_for_open_and_close() {
    assert_eq!(watering_of("open"), Some(true));
    assert_eq!(watering_of("close"), Some(false));
    assert_eq!(watering_of(" open\n"), Some(true));
    assert_eq!(watering_of("\tclose "), Some(false));
    assert_eq!(watering_of("OPEN"), None);
    assert_eq!(watering_of("ON"), None);
    assert_eq!(watering_of(""), None);
    assert_eq!(watering_of("op en"), None);
}
