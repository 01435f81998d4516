//! The bus adapter: topic grammar and payload tokens.
//!
//! Topics have exactly three segments: `tele/<node>/reading`,
//! `valve/<zone>/set` and `status/node/<node>`.

use vstd::prelude::*;
use vstd::string::StrSliceExecFns;
use crate::state::ReadingView;
use crate::text::{
    find_char, first_at, lemma_first_at, lossy_text, lowercase, push_str, starts_with_at,
    str_eq, to_chars, to_lower, to_upper, trim_text, trimmed, uppercase, utf8_lossy,
};

verus! {

/// The filter of the telemetry topics of all nodes.
pub const TELEMETRY_FILTER: &'static str = "tele/+/reading";

/// The filter of the valve topics of all zones.
pub const VALVE_FILTER: &'static str = "valve/+/set";

/// The filter of the status topics of all nodes.
pub const NODE_STATUS_FILTER: &'static str = "status/node/+";

/// The topic on which the hub says whether it is there; its last will says
/// `offline` on the same topic.
pub const HUB_STATUS_TOPIC: &'static str = "status/hub";

/// The retained payload of a party that is there.
pub const ONLINE: &'static str = "online";

/// The retained payload of a party that is gone.
pub const OFFLINE: &'static str = "offline";

/// The seconds between two signs of life on the connection to the broker.
pub const KEEP_ALIVE_SEC: u64 = 30;

/// One raw value in a telemetry message.
#[derive(Debug)]
pub struct Reading {
    pub sensor_id: String,
    pub raw: i64,
}

impl View for Reading {
    type V = ReadingView;

    open spec fn view(&self) -> ReadingView {
        ReadingView { sensor_id: self.sensor_id@, raw: self.raw }
    }
}

/// A telemetry message of a node: a time in Unix seconds and the readings.
#[derive(Debug)]
pub struct ReadingMsg {
    pub ts: i64,
    pub readings: Vec<Reading>,
}

/// Whether `s` can be one segment of a topic: it holds no `/`.
pub open spec fn is_segment(s: Seq<char>) -> bool {
    forall|i: int| 0 <= i < s.len() ==> s[i] != '/'
}

/// The topic of the three segments `head`, `mid` and `tail`.
pub open spec fn three_part_topic(head: Seq<char>, mid: Seq<char>, tail: Seq<char>) -> Seq<char> {
    head + seq!['/'] + mid + seq!['/'] + tail
}

/// Where the parts of a three-part topic stand in it.
proof fn lemma_three_part(head: Seq<char>, mid: Seq<char>, tail: Seq<char>)
    requires
        is_segment(mid),
    ensures
        ({
            let t = three_part_topic(head, mid, tail);
            let a = head.len() as int;
            let b = a + 1 + mid.len();
            &&& t.len() == b + 1 + tail.len()
            &&& head.is_prefix_of(t)
            &&& t[a] == '/'
            &&& first_at(t, a + 1, '/') == b
            &&& t.subrange(a + 1, b) == mid
            &&& t.skip(b + 1) == tail
        }),
{
    let t = three_part_topic(head, mid, tail);
    let a = head.len() as int;
    let b = a + 1 + mid.len();
    assert(t.subrange(0, a) =~= head);
    assert(t.subrange(a + 1, b) =~= mid);
    assert(t.skip(b + 1) =~= tail);
    assert(t[b] == '/');
    assert forall|j: int| a + 1 <= j < b implies t[j] != '/' by {
        assert(t[j] == mid[j - a - 1]);
    }
    lemma_first_at(t, a + 1, '/');
}

/// The middle segment of a topic whose first segment is `head` and whose
/// third and last segment is `tail`.
fn middle_segment<'a>(topic: &'a str, head: &str, tail: &str) -> (mid: Option<&'a str>)
    ensures
        match mid {
            Some(m) => is_segment(m@) && topic@ == three_part_topic(head@, m@, tail@),
            None => forall|m: Seq<char>|
                is_segment(m) ==> topic@ != #[trigger] three_part_topic(head@, m, tail@),
        },
{
    let v = to_chars(topic);
    let a = head.unicode_len();
    let n = tail.unicode_len();
    proof {
        assert(v@.skip(0) =~= v@);
    }
    if !starts_with_at(&v, 0, head) || a >= v.len() || v[a] != '/' {
        proof {
            assert forall|m: Seq<char>| is_segment(m) implies topic@ != #[trigger] three_part_topic(
                head@,
                m,
                tail@,
            ) by {
                lemma_three_part(head@, m, tail@);
            }
        }
        return None;
    }
    let b = find_char(&v, a + 1, '/');
    if b >= v.len() || v.len() - (b + 1) != n || !starts_with_at(&v, b + 1, tail) {
        proof {
            assert forall|m: Seq<char>| is_segment(m) implies topic@ != #[trigger] three_part_topic(
                head@,
                m,
                tail@,
            ) by {
                lemma_three_part(head@, m, tail@);
                if topic@ == three_part_topic(head@, m, tail@) {
                    assert(tail@.is_prefix_of(v@.skip(b + 1)));
                }
            }
        }
        return None;
    }
    let mid = topic.substring_char(a + 1, b);
    proof {
        lemma_first_at(v@, a + 1, '/');
        assert(v@.skip(b + 1) =~= tail@);
        assert(v@.subrange(0, a as int) =~= head@);
        assert(topic@ =~= three_part_topic(head@, mid@, tail@));
    }
    Some(mid)
}

/// The node of a telemetry topic `tele/<node>/reading`; `None` for every other topic.
pub fn extract_node_id(topic: &str) -> (node: Option<&str>)
    ensures
        match node {
            Some(n) => is_segment(n@) && topic@ == three_part_topic("tele"@, n@, "reading"@),
            None => forall|n: Seq<char>|
                is_segment(n) ==> topic@ != #[trigger] three_part_topic("tele"@, n, "reading"@),
        },
{
    middle_segment(topic, "tele", "reading")
}

/// The zone of a valve topic `valve/<zone>/set`; `None` for every other topic.
pub fn extract_zone_id(topic: &str) -> (zone: Option<&str>)
    ensures
        match zone {
            Some(z) => is_segment(z@) && topic@ == three_part_topic("valve"@, z@, "set"@),
            None => forall|z: Seq<char>|
                is_segment(z) ==> topic@ != #[trigger] three_part_topic("valve"@, z, "set"@),
        },
{
    middle_segment(topic, "valve", "set")
}

/// The node of a status topic `status/node/<node>`; `None` for every other topic.
pub fn extract_node_status_id(topic: &str) -> (node: Option<&str>)
    ensures
        match node {
            Some(n) => is_segment(n@) && topic@ == three_part_topic("status"@, "node"@, n@),
            None => forall|n: Seq<char>|
                is_segment(n) ==> topic@ != #[trigger] three_part_topic("status"@, "node"@, n),
        },
{
    let v = to_chars(topic);
    proof {
        reveal_strlit("status/node/");
        reveal_strlit("status");
        reveal_strlit("node");
        assert(v@.skip(0) =~= v@);
        assert("status/node/"@ =~= "status"@ + seq!['/'] + "node"@ + seq!['/']);
    }
    if !starts_with_at(&v, 0, "status/node/") {
        proof {
            assert forall|n: Seq<char>| is_segment(n) implies topic@ != #[trigger] three_part_topic(
                "status"@,
                "node"@,
                n,
            ) by {
                let t = three_part_topic("status"@, "node"@, n);
                assert(t.subrange(0, 12) =~= "status/node/"@);
            }
        }
        return None;
    }
    let b = find_char(&v, 12, '/');
    proof {
        lemma_first_at(v@, 12, '/');
    }
    if b < v.len() {
        proof {
            assert forall|n: Seq<char>| is_segment(n) implies topic@ != #[trigger] three_part_topic(
                "status"@,
                "node"@,
                n,
            ) by {
                let t = three_part_topic("status"@, "node"@, n);
                if topic@ == t {
                    assert(t[b as int] == n[b - 12]);
                }
            }
        }
        return None;
    }
    let node = topic.substring_char(12, v.len());
    proof {
        assert(v@.subrange(0, 12) =~= "status/node/"@);
        assert(topic@ =~= three_part_topic("status"@, "node"@, node@));
    }
    Some(node)
}

/// The topic on which the valve of `zone_id` takes its commands.
pub fn valve_topic(zone_id: &str) -> (topic: String)
    ensures
        topic@ == three_part_topic("valve"@, zone_id@, "set"@),
{
    let mut t: String = String::new();
    push_str(&mut t, "valve");
    t.push('/');
    push_str(&mut t, zone_id);
    t.push('/');
    push_str(&mut t, "set");
    assert(t@ =~= three_part_topic("valve"@, zone_id@, "set"@));
    t
}

/// What a valve token means: `ON` opens, `OFF` closes, anything else is an
/// error that quotes the token.
pub open spec fn valve_token_result(token: Seq<char>) -> Result<bool, Seq<char>> {
    if token == "ON"@ {
        Ok(true)
    } else if token == "OFF"@ {
        Ok(false)
    } else {
        Err("unknown valve command '"@ + token + "'"@)
    }
}

/// A command or its error, the error by its characters.
pub open spec fn command_view(r: Result<bool, String>) -> Result<bool, Seq<char>> {
    match r {
        Ok(on) => Ok(on),
        Err(msg) => Err(msg@),
    }
}

/// Reads a valve token that was trimmed and put in upper case.
pub fn classify_valve_token(token: &str) -> (r: Result<bool, String>)
    ensures
        command_view(r) == valve_token_result(token@),
{
    if str_eq(token, "ON") {
        Ok(true)
    } else if str_eq(token, "OFF") {
        Ok(false)
    } else {
        let mut msg: String = String::new();
        push_str(&mut msg, "unknown valve command '");
        push_str(&mut msg, token);
        push_str(&mut msg, "'");
        Err(msg)
    }
}

/// Reads the payload of a valve command: the bytes are decoded, white space
/// at both ends is dropped, and what is left is compared in upper case.
pub fn parse_valve_command(payload: &[u8]) -> (r: Result<bool, String>)
    ensures
        command_view(r) == valve_token_result(uppercase(trimmed(lossy_text(payload@)))),
{
    let text = utf8_lossy(payload);
    let core = trim_text(text.as_str());
    let token = to_upper(core.as_str());
    classify_valve_token(token.as_str())
}

/// What a status token means: `online`, `offline`, or nothing.
pub open spec fn status_token_result(token: Seq<char>) -> Option<bool> {
    if token == "online"@ {
        Some(true)
    } else if token == "offline"@ {
        Some(false)
    } else {
        None
    }
}

/// Reads a status token that was trimmed and put in lower case.
pub fn classify_node_status(token: &str) -> (r: Option<bool>)
    ensures
        r == status_token_result(token@),
{
    if str_eq(token, "online") {
        Some(true)
    } else if str_eq(token, "offline") {
        Some(false)
    } else {
        None
    }
}

/// Reads the payload of a node status message: the bytes are decoded, white
/// space at both ends is dropped, and what is left is compared in lower case.
pub fn parse_node_status(payload: &[u8]) -> (r: Option<bool>)
    ensures
        r == status_token_result(lowercase(trimmed(lossy_text(payload@)))),
{
    let text = utf8_lossy(payload);
    let core = trim_text(text.as_str());
    let token = to_lower(core.as_str());
    classify_node_status(token.as_str())
}

/// A valve topic is read back as the zone it was made for.
pub proof fn lemma_valve_topic_round_trip(zone: Seq<char>, other: Seq<char>)
    requires
        is_segment(zone),
        is_segment(other),
        three_part_topic("valve"@, zone, "set"@) == three_part_topic("valve"@, other, "set"@),
    ensures
        zone == other,
{
    lemma_three_part("valve"@, zone, "set"@);
    lemma_three_part("valve"@, other, "set"@);
}

} // verus!
