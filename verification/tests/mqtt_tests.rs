use irrigation::config::OperationMode;
use irrigation::mqtt::{
    classify_node_status, classify_valve_token, extract_node_id, extract_node_status_id,
    extract_zone_id, parse_node_status, parse_valve_command, valve_topic, HUB_STATUS_TOPIC,
    KEEP_ALIVE_SEC, NODE_STATUS_FILTER, OFFLINE, ONLINE, TELEMETRY_FILTER, VALVE_FILTER,
};

// -- extract_node_id ----------------------------------------------------

#[test]
fn extract_node_id_valid_topic() {
    assert_eq!(extract_node_id("tele/node-a/reading"), Some("node-a"));
}

#[test]
fn extract_node_id_different_node() {
    assert_eq!(
        extract_node_id("tele/greenhouse-1/reading"),
        Some("greenhouse-1")
    );
}

#[test]
fn extract_node_id_wrong_prefix() {
    assert_eq!(extract_node_id("foo/node-a/reading"), None);
}

#[test]
fn extract_node_id_wrong_suffix() {
    assert_eq!(extract_node_id("tele/node-a/status"), None);
}

#[test]
fn extract_node_id_too_few_segments() {
    assert_eq!(extract_node_id("tele/reading"), None);
}

#[test]
fn extract_node_id_too_many_segments() {
    assert_eq!(extract_node_id("tele/node-a/sub/reading"), None);
}

#[test]
fn extract_node_id_empty_string() {
    assert_eq!(extract_node_id(""), None);
}

#[test]
fn extract_node_id_edge_cases() {
    assert_eq!(extract_node_id("tele//reading"), Some(""));
    assert_eq!(extract_node_id("tele/n/reading/"), None);
    assert_eq!(extract_node_id("/tele/n/reading"), None);
    assert_eq!(extract_node_id("tele/n/readin"), None);
    assert_eq!(extract_node_id("tele/n/readings"), None);
    assert_eq!(extract_node_id("telex/n/reading"), None);
    assert_eq!(extract_node_id("tele"), None);
    assert_eq!(extract_node_id("tele/"), None);
    assert_eq!(extract_node_id("tele/gewächshaus/reading"), Some("gewächshaus"));
}

// -- extract_zone_id ----------------------------------------------------

#[test]
fn extract_zone_id_valid_topic() {
    assert_eq!(extract_zone_id("valve/zone1/set"), Some("zone1"));
}

#[test]
fn extract_zone_id_wrong_prefix() {
    assert_eq!(extract_zone_id("pump/zone1/set"), None);
}

#[test]
fn extract_zone_id_wrong_suffix() {
    assert_eq!(extract_zone_id("valve/zone1/get"), None);
}

#[test]
fn extract_zone_id_too_few_segments() {
    assert_eq!(extract_zone_id("valve/set"), None);
}

#[test]
fn extract_zone_id_empty_string() {
    assert_eq!(extract_zone_id(""), None);
}

#[test]
fn valve_topic_is_read_back() {
    assert_eq!(valve_topic("z1"), "valve/z1/set");
    assert_eq!(extract_zone_id(&valve_topic("z1")), Some("z1"));
    assert_eq!(extract_zone_id(&valve_topic("front lawn")), Some("front lawn"));
    assert_eq!(extract_zone_id(&valve_topic("")), Some(""));
    // A name with a slash makes a topic of four segments, which is none.
    assert_eq!(extract_zone_id(&valve_topic("a/b")), None);
}

// -- extract_node_status_id ------------------------------------------------

#[test]
fn extract_node_status_id_cases() {
    assert_eq!(extract_node_status_id("status/node/node-a"), Some("node-a"));
    assert_eq!(extract_node_status_id("status/node/"), Some(""));
    assert_eq!(extract_node_status_id("status/node"), None);
    assert_eq!(extract_node_status_id("status/hub"), None);
    assert_eq!(extract_node_status_id("status/node/a/b"), None);
    assert_eq!(extract_node_status_id("status/nodes/a"), None);
    assert_eq!(extract_node_status_id("tele/node/a"), None);
    assert_eq!(extract_node_status_id(""), None);
}

// -- parse_valve_command ------------------------------------------------

#[test]
fn parse_valve_command_on_uppercase() {
    assert_eq!(parse_valve_command(b"ON"), Ok(true));
}

#[test]
fn parse_valve_command_off_uppercase() {
    assert_eq!(parse_valve_command(b"OFF"), Ok(false));
}

#[test]
fn parse_valve_command_on_lowercase() {
    assert_eq!(parse_valve_command(b"on"), Ok(true));
}

#[test]
fn parse_valve_command_off_mixed_case() {
    assert_eq!(parse_valve_command(b"oFf"), Ok(false));
}

#[test]
fn parse_valve_command_with_whitespace() {
    assert_eq!(parse_valve_command(b"  ON  "), Ok(true));
    assert_eq!(parse_valve_command(b"\tOFF\n"), Ok(false));
}

#[test]
fn parse_valve_command_garbage() {
    assert!(parse_valve_command(b"TOGGLE").is_err());
}

#[test]
fn parse_valve_command_empty() {
    assert!(parse_valve_command(b"").is_err());
}

#[test]
fn parse_valve_command_error_quotes_the_token() {
    assert_eq!(
        parse_valve_command(b" toggle\n"),
        Err("unknown valve command 'TOGGLE'".to_string())
    );
    assert_eq!(parse_valve_command(b""), Err("unknown valve command ''".to_string()));
    assert_eq!(
        parse_valve_command(b"o n"),
        Err("unknown valve command 'O N'".to_string())
    );
    // Bytes that are no text are decoded with the replacement character.
    assert_eq!(
        parse_valve_command(&[0xff, b'o', b'n']),
        Err("unknown valve command '\u{fffd}ON'".to_string())
    );
}

#[test]
fn parse_valve_command_trims_unicode_white_space() {
    assert_eq!(parse_valve_command("\u{a0}on\u{2003}".as_bytes()), Ok(true));
    assert_eq!(parse_valve_command("\u{3000}off\u{85}".as_bytes()), Ok(false));
    // A zero-width space is no white space.
    assert!(parse_valve_command("\u{200b}on".as_bytes()).is_err());
}

#[test]
fn classify_valve_token_is_exact() {
    assert_eq!(classify_valve_token("ON"), Ok(true));
    assert_eq!(classify_valve_token("OFF"), Ok(false));
    assert_eq!(classify_valve_token("on"), Err("unknown valve command 'on'".to_string()));
    assert_eq!(classify_valve_token(" ON"), Err("unknown valve command ' ON'".to_string()));
    assert_eq!(classify_valve_token("ONN"), Err("unknown valve command 'ONN'".to_string()));
}

// -- node status ---------------------------------------------------------------

#[test]
fn parse_node_status_cases() {
    assert_eq!(parse_node_status(b"online"), Some(true));
    assert_eq!(parse_node_status(b"offline"), Some(false));
    assert_eq!(parse_node_status(b" ONLINE\n"), Some(true));
    assert_eq!(parse_node_status(b"Offline"), Some(false));
    assert_eq!(parse_node_status(b"on"), None);
    assert_eq!(parse_node_status(b""), None);
    assert_eq!(parse_node_status(&[0xff]), None);
    assert_eq!(classify_node_status("online"), Some(true));
    assert_eq!(classify_node_status("offline"), Some(false));
    assert_eq!(classify_node_status("ONLINE"), None);
}

// -- Topics of the hub --------------------------------------------------------

#[test]
fn filters_cover_the_topics_that_are_read() {
    assert_eq!(extract_node_id(&TELEMETRY_FILTER.replace('+', "node-a")), Some("node-a"));
    assert_eq!(extract_zone_id(&VALVE_FILTER.replace('+', "z1")), Some("z1"));
    assert_eq!(extract_node_status_id(&NODE_STATUS_FILTER.replace('+', "node-a")), Some("node-a"));
    assert_eq!(HUB_STATUS_TOPIC, "status/hub");
    assert_eq!(extract_node_status_id(HUB_STATUS_TOPIC), None);
    assert_eq!(parse_node_status(ONLINE.as_bytes()), Some(true));
    assert_eq!(parse_node_status(OFFLINE.as_bytes()), Some(false));
    assert_eq!(KEEP_ALIVE_SEC, 30);
    assert_eq!(OperationMode::Auto.label(), "auto");
    assert_eq!(OperationMode::Monitor.label(), "monitor");
}
