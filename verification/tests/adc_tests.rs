use irrigation::adc::{clamp_raw, config_for_channel, parse_channels, CONFIG_BASE};

// -- Config register construction -----------------------------------------

#[test]
fn config_register_channel_a0() {
    // AIN0 vs GND: MUX = 100 → bits [14:12] = 0b100
    let cfg = config_for_channel(0);
    assert_eq!(cfg, 0xC383, "A0 config: {cfg:#06x}");
}

#[test]
fn config_register_channel_a1() {
    let cfg = config_for_channel(1);
    assert_eq!(cfg, 0xD383, "A1 config: {cfg:#06x}");
}

#[test]
fn config_register_channel_a2() {
    let cfg = config_for_channel(2);
    assert_eq!(cfg, 0xE383, "A2 config: {cfg:#06x}");
}

#[test]
fn config_register_channel_a3() {
    let cfg = config_for_channel(3);
    assert_eq!(cfg, 0xF383, "A3 config: {cfg:#06x}");
}

#[test]
fn config_base_has_correct_pga() {
    // PGA bits [11:9] should be 001 for ±4.096 V.
    let pga = (CONFIG_BASE >> 9) & 0b111;
    assert_eq!(pga, 0b001, "PGA should be ±4.096 V");
}

#[test]
fn config_base_is_single_shot() {
    // MODE bit [8] should be 1 for single-shot.
    let mode = (CONFIG_BASE >> 8) & 1;
    assert_eq!(mode, 1, "MODE should be single-shot");
}

#[test]
fn config_base_data_rate_128sps() {
    // DR bits [7:5] should be 100 for 128 SPS.
    let dr = (CONFIG_BASE >> 5) & 0b111;
    assert_eq!(dr, 0b100, "DR should be 128 SPS");
}

#[test]
fn config_base_starts_conversion() {
    // OS bit [15] should be 1 to start a conversion.
    let os = (CONFIG_BASE >> 15) & 1;
    assert_eq!(os, 1, "OS should be set to start conversion");
}

#[test]
fn config_register_is_base_with_input_bits() {
    assert_eq!(CONFIG_BASE, 0b1_000_001_1_100_0_0_0_11);
    let inputs: [u16; 4] = [0b100, 0b101, 0b110, 0b111];
    for channel in 0..4 {
        assert_eq!(config_for_channel(channel), CONFIG_BASE | (inputs[channel] << 12));
    }
}

// -- Channel parsing ------------------------------------------------------

#[test]
fn parse_channels_default() {
    let channels = parse_channels("").unwrap();
    assert_eq!(channels.len(), 2);
    assert_eq!(channels[0].channel, 0);
    assert_eq!(channels[0].sensor_id, "s1");
    assert_eq!(channels[1].channel, 1);
    assert_eq!(channels[1].sensor_id, "s2");
}

#[test]
fn parse_channels_explicit() {
    let channels = parse_channels("2,3,0").unwrap();
    assert_eq!(channels.len(), 3);
    assert_eq!(channels[0].channel, 2);
    assert_eq!(channels[0].sensor_id, "s1");
    assert_eq!(channels[1].channel, 3);
    assert_eq!(channels[1].sensor_id, "s2");
    assert_eq!(channels[2].channel, 0);
    assert_eq!(channels[2].sensor_id, "s3");
}

#[test]
fn parse_channels_single() {
    let channels = parse_channels("0").unwrap();
    assert_eq!(channels.len(), 1);
    assert_eq!(channels[0].channel, 0);
    assert_eq!(channels[0].sensor_id, "s1");
}

#[test]
fn parse_channels_with_whitespace() {
    let channels = parse_channels(" 0 , 1 ").unwrap();
    assert_eq!(channels.len(), 2);
    assert_eq!(channels[0].channel, 0);
    assert_eq!(channels[1].channel, 1);
}

#[test]
fn parse_channels_invalid_number() {
    assert!(parse_channels("abc").is_err());
}

#[test]
fn parse_channels_out_of_range() {
    assert!(parse_channels("0,4").is_err());
}

#[test]
fn parse_channels_negative() {
    assert!(parse_channels("-1").is_err());
}

#[test]
fn parse_channels_error_texts() {
    assert_eq!(
        parse_channels("abc").unwrap_err(),
        "invalid channel in SENSOR_CHANNELS: \"abc\""
    );
    assert_eq!(
        parse_channels("0, x\t").unwrap_err(),
        "invalid channel in SENSOR_CHANNELS: \" x\\t\""
    );
    assert_eq!(
        parse_channels("0,4").unwrap_err(),
        "channel 4 in SENSOR_CHANNELS exceeds maximum (3)"
    );
    assert_eq!(
        parse_channels("18446744073709551615").unwrap_err(),
        "channel 18446744073709551615 in SENSOR_CHANNELS exceeds maximum (3)"
    );
    assert_eq!(
        parse_channels("18446744073709551616").unwrap_err(),
        "invalid channel in SENSOR_CHANNELS: \"18446744073709551616\""
    );
    assert_eq!(
        parse_channels("1,").unwrap_err(),
        "invalid channel in SENSOR_CHANNELS: \"\""
    );
    assert_eq!(
        parse_channels(",").unwrap_err(),
        "invalid channel in SENSOR_CHANNELS: \"\""
    );
    // The first token that is none decides.
    assert_eq!(
        parse_channels("9,abc").unwrap_err(),
        "channel 9 in SENSOR_CHANNELS exceeds maximum (3)"
    );
}

#[test]
fn parse_channels_reads_numbers_as_std_does() {
    let channels = parse_channels("+1,003,0").unwrap();
    assert_eq!(channels.len(), 3);
    assert_eq!(channels[0].channel, 1);
    assert_eq!(channels[1].channel, 3);
    assert_eq!(channels[2].channel, 0);
    assert!(parse_channels("++1").is_err());
    assert!(parse_channels("+").is_err());
    assert!(parse_channels("1 2").is_err());
    assert!(parse_channels("0x1").is_err());
    for text in ["0", "+3", "00", " 2 ", "4", "-0", "", "1.0", "٣"] {
        let std_says: Option<usize> = text.trim().parse().ok();
        let token = if text.is_empty() { " " } else { text };
        match parse_channels(token) {
            Ok(c) => assert_eq!(Some(c[0].channel), std_says),
            Err(_) => assert!(std_says.is_none() || std_says.unwrap() > 3),
        }
    }
}

#[test]
fn clamp_raw_holds_between_zero_and_max() {
    assert_eq!(clamp_raw(0), 0);
    assert_eq!(clamp_raw(-1), 0);
    assert_eq!(clamp_raw(i16::MIN), 0);
    assert_eq!(clamp_raw(12345), 12345);
    assert_eq!(clamp_raw(i16::MAX), 32767);
}
