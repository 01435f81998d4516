use irrigation::valve::{PinWrite, ValveBoard};

// -- ValveBoard ---------------------------------------------------------

#[test]
fn valve_board_new_registers_zones() {
    let zones = vec![("z1".to_string(), 17), ("z2".to_string(), 27)];
    let board = ValveBoard::new(&zones, true);
    assert_eq!(board.len(), 2);
}

#[test]
fn valve_board_new_all_off() {
    let zones = vec![("z1".to_string(), 17)];
    let board = ValveBoard::new(&zones, true);
    assert_eq!(board.is_on("z1"), Some(false));
}

#[test]
fn valve_board_set_on() {
    let zones = vec![("z1".to_string(), 17)];
    let mut board = ValveBoard::new(&zones, true);
    board.set("z1", true);
    assert_eq!(board.is_on("z1"), Some(true));
}

#[test]
fn valve_board_set_off() {
    let zones = vec![("z1".to_string(), 17)];
    let mut board = ValveBoard::new(&zones, true);
    board.set("z1", true);
    board.set("z1", false);
    assert_eq!(board.is_on("z1"), Some(false));
}

#[test]
fn valve_board_all_off_resets_everything() {
    let zones = vec![("z1".to_string(), 17), ("z2".to_string(), 27)];
    let mut board = ValveBoard::new(&zones, true);
    board.set("z1", true);
    board.set("z2", true);
    board.all_off();
    assert_eq!(board.is_on("z1"), Some(false));
    assert_eq!(board.is_on("z2"), Some(false));
}

#[test]
fn valve_board_set_unknown_zone_does_not_panic() {
    let zones = vec![("z1".to_string(), 17)];
    let mut board = ValveBoard::new(&zones, true);
    assert_eq!(board.set("nonexistent", true), None); // should not panic
    assert_eq!(board.len(), 1); // no new entry created
    assert_eq!(board.is_on("nonexistent"), None);
    assert_eq!(board.is_on("z1"), Some(false));
}

#[test]
fn valve_board_drop_turns_off() {
    let zones = vec![("z1".to_string(), 17)];
    let mut board = ValveBoard::new(&zones, true);
    board.set("z1", true);
    assert_eq!(board.is_on("z1"), Some(true));
    drop(board);
    // Can't check state after drop, but at least it doesn't panic
}

// -- Polarity -------------------------------------------------------------

#[test]
fn active_low_board_is_on_at_logic_low() {
    let zones = vec![("z1".to_string(), 17)];
    let mut board = ValveBoard::new(&zones, true);
    assert!(board.off_level());
    assert_eq!(board.set("z1", true), Some(PinWrite { gpio_pin: 17, high: false }));
    assert_eq!(board.set("z1", false), Some(PinWrite { gpio_pin: 17, high: true }));
}

#[test]
fn active_high_board_is_on_at_logic_high() {
    let zones = vec![("z1".to_string(), 17)];
    let mut board = ValveBoard::new(&zones, false);
    assert!(!board.off_level());
    assert_eq!(board.set("z1", true), Some(PinWrite { gpio_pin: 17, high: true }));
    assert_eq!(board.set("z1", false), Some(PinWrite { gpio_pin: 17, high: false }));
}

#[test]
fn setting_a_valve_twice_asks_for_the_same_write() {
    let zones = vec![("z1".to_string(), 17)];
    let mut board = ValveBoard::new(&zones, true);
    let first = board.set("z1", true);
    let second = board.set("z1", true);
    assert_eq!(first, second);
    assert_eq!(board.is_on("z1"), Some(true));
}

#[test]
fn all_off_writes_every_pin_to_its_off_level() {
    let zones = vec![("z1".to_string(), 17), ("z2".to_string(), 27), ("z3".to_string(), 5)];
    for active_low in [true, false] {
        let mut board = ValveBoard::new(&zones, active_low);
        board.set("z2", true);
        let writes = board.all_off();
        assert_eq!(
            writes,
            vec![
                PinWrite { gpio_pin: 17, high: active_low },
                PinWrite { gpio_pin: 27, high: active_low },
                PinWrite { gpio_pin: 5, high: active_low },
            ]
        );
        for (zone, _) in &zones {
            assert_eq!(board.is_on(zone), Some(false));
        }
    }
    let mut empty = ValveBoard::new(&[], true);
    assert!(empty.all_off().is_empty());
}
