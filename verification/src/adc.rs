//! The converter of a sensor node: its configuration register and the
//! channels that a node reads.

use vstd::prelude::*;
use crate::text::{
    debug_quoted, debug_text, decimal_nat, find_char, first_at, parse_unsigned, push_nat,
    push_str, slice_of, string_of, to_chars, trim_bounds, trimmed, unsigned_value,
};

verus! {

/// The bits that every single-shot read sets in the configuration register:
/// start a conversion, full scale of 4.096 V, single-shot mode, 128 samples a
/// second, comparator off.
pub const CONFIG_BASE: u16 = 0x8383;

/// The last channel of the converter.
pub const MAX_CHANNEL: usize = 3;

/// The largest raw value of a single-ended read.
pub const RAW_MAX: i32 = 32767;

/// One input of the converter and the sensor that hangs on it.
#[derive(Debug, Clone)]
pub struct ChannelMap {
    /// The channel, 0 to 3.
    pub channel: usize,
    /// The name of the sensor in the readings of the node.
    pub sensor_id: String,
}

/// A `ChannelMap` with its text as characters.
pub ghost struct ChannelView {
    pub channel: usize,
    pub sensor_id: Seq<char>,
}

impl View for ChannelMap {
    type V = ChannelView;

    open spec fn view(&self) -> ChannelView {
        ChannelView { channel: self.channel, sensor_id: self.sensor_id@ }
    }
}

/// The views of a list of channels.
pub open spec fn channels_view(channels: Seq<ChannelMap>) -> Seq<ChannelView> {
    Seq::new(channels.len(), |i: int| channels[i]@)
}

/// The configuration register for a single-ended read of `channel`: the
/// common bits, and the input in bits 12 to 14.
pub open spec fn register_for(channel: int) -> u16 {
    if channel == 0 {
        0xc383
    } else if channel == 1 {
        0xd383
    } else if channel == 2 {
        0xe383
    } else {
        0xf383
    }
}

/// The configuration register for a single-ended read of `channel`.
pub fn config_for_channel(channel: usize) -> (register: u16)
    requires
        channel <= MAX_CHANNEL,
    ensures
        register == register_for(channel as int),
        register == CONFIG_BASE + (4 + channel) * 0x1000,
{
    let mux: u16 = 4 + channel as u16;
    CONFIG_BASE + mux * 0x1000
}

/// A raw value as a reading carries it: held between 0 and `RAW_MAX`.
pub fn clamp_raw(raw: i16) -> (held: i32)
    ensures
        held == if raw < 0 {
            0
        } else {
            raw as int
        },
        0 <= held <= RAW_MAX,
{
    if raw < 0 {
        0
    } else {
        raw as i32
    }
}

/// The error of a token that is no number.
pub open spec fn invalid_channel_text(token: Seq<char>) -> Seq<char> {
    "invalid channel in SENSOR_CHANNELS: "@ + debug_quoted(token)
}

/// The error of a channel that the converter does not have.
pub open spec fn channel_exceeds_text(channel: nat) -> Seq<char> {
    "channel "@ + decimal_nat(channel) + " in SENSOR_CHANNELS exceeds maximum ("@ + decimal_nat(
        MAX_CHANNEL as nat,
    ) + ")"@
}

/// The name of the sensor at place `index` of the list: `s1`, `s2`, and so on.
pub open spec fn sensor_name(index: nat) -> Seq<char> {
    "s"@ + decimal_nat(index + 1)
}

/// What one token of the list means: a channel, or an error.
pub open spec fn channel_of(token: Seq<char>, index: nat) -> Result<ChannelView, Seq<char>> {
    match unsigned_value(trimmed(token)) {
        Some(n) => if n > usize::MAX {
            Err(invalid_channel_text(token))
        } else if n > MAX_CHANNEL {
            Err(channel_exceeds_text(n))
        } else {
            Ok(ChannelView { channel: n as usize, sensor_id: sensor_name(index) })
        },
        None => Err(invalid_channel_text(token)),
    }
}

/// `r` with `done` in front of what it holds.
pub open spec fn after(done: Seq<ChannelView>, r: Result<Seq<ChannelView>, Seq<char>>) -> Result<
    Seq<ChannelView>,
    Seq<char>,
> {
    match r {
        Ok(rest) => Ok(done + rest),
        Err(e) => Err(e),
    }
}

/// What the tokens of `s` from `start` on mean, the first of them at place
/// `index` of the list: their channels in order, or the error of the first
/// token that is none. Tokens are separated by commas.
pub open spec fn channels_from(s: Seq<char>, start: int, index: nat) -> Result<
    Seq<ChannelView>,
    Seq<char>,
>
    decreases s.len() - start,
{
    let end = first_at(s, start, ',');
    if start < 0 || start > s.len() || end < start {
        Ok(Seq::empty())
    } else {
        match channel_of(s.subrange(start, end), index) {
            Err(e) => Err(e),
            Ok(c) => if end >= s.len() {
                Ok(seq![c])
            } else {
                after(seq![c], channels_from(s, end + 1, index + 1))
            },
        }
    }
}

/// What a channel list means; an empty one stands for `0,1`.
pub open spec fn channels_of(env_val: Seq<char>) -> Result<Seq<ChannelView>, Seq<char>> {
    if env_val.len() == 0 {
        channels_from("0,1"@, 0, 0)
    } else {
        channels_from(env_val, 0, 0)
    }
}

/// A list of channels or its error, by their views.
pub open spec fn parsed_view(r: Result<Vec<ChannelMap>, String>) -> Result<
    Seq<ChannelView>,
    Seq<char>,
> {
    match r {
        Ok(channels) => Ok(channels_view(channels@)),
        Err(e) => Err(e@),
    }
}

fn parse_token(v: &Vec<char>, start: usize, end: usize, index: usize) -> (r: Result<
    ChannelMap,
    String,
>)
    requires
        start <= end <= v.len(),
    ensures
        match r {
            Ok(c) => channel_of(v@.subrange(start as int, end as int), index as nat) == Ok::<
                ChannelView,
                Seq<char>,
            >(c@),
            Err(e) => channel_of(v@.subrange(start as int, end as int), index as nat) == Err::<
                ChannelView,
                Seq<char>,
            >(e@),
        },
{
    let token = slice_of(v, start, end);
    let (a, z) = trim_bounds(&token);
    match parse_unsigned(&token, a, z, usize::MAX as u64) {
        None => {
            let raw = string_of(v, start, end);
            let mut e: String = String::new();
            push_str(&mut e, "invalid channel in SENSOR_CHANNELS: ");
            let quoted = debug_text(raw.as_str());
            push_str(&mut e, quoted.as_str());
            assert(e@ =~= invalid_channel_text(token@));
            Err(e)
        },
        Some(n) => {
            if n > MAX_CHANNEL as u64 {
                let mut e: String = String::new();
                push_str(&mut e, "channel ");
                push_nat(&mut e, n as u128);
                push_str(&mut e, " in SENSOR_CHANNELS exceeds maximum (");
                push_nat(&mut e, MAX_CHANNEL as u128);
                push_str(&mut e, ")");
                assert(e@ =~= channel_exceeds_text(n as nat));
                Err(e)
            } else {
                let mut name: String = String::new();
                push_str(&mut name, "s");
                push_nat(&mut name, index as u128 + 1);
                assert(name@ =~= sensor_name(index as nat));
                Ok(ChannelMap { channel: n as usize, sensor_id: name })
            }
        },
    }
}

/// Reads a channel list: channels of the converter separated by commas, as
/// in `0,1`. The sensors are named by their place in the list, `s1` first.
/// An empty list stands for `0,1`.
pub fn parse_channels(env_val: &str) -> (r: Result<Vec<ChannelMap>, String>)
    ensures
        parsed_view(r) == channels_of(env_val@),
{
    let input = if env_val.is_empty() { "0,1" } else { env_val };
    let v = to_chars(input);
    let mut channels: Vec<ChannelMap> = Vec::new();
    let mut start: usize = 0;
    assert(channels_view(channels@) =~= Seq::<ChannelView>::empty());
    assert(after(Seq::empty(), channels_from(v@, 0, 0)) == channels_from(v@, 0, 0)) by {
        match channels_from(v@, 0, 0) {
            Ok(rest) => {
                assert(Seq::<ChannelView>::empty() + rest =~= rest);
            },
            Err(_) => {},
        }
    }
    loop
        invariant
            start <= v.len(),
            channels@.len() <= start,
            v@ == input@,
            channels_of(env_val@) == channels_from(v@, 0, 0),
            channels_from(v@, 0, 0) == after(
                channels_view(channels@),
                channels_from(v@, start as int, channels@.len()),
            ),
        decreases v.len() - start,
    {
        let end = find_char(&v, start, ',');
        let index = channels.len();
        let ghost done = channels_view(channels@);
        match parse_token(&v, start, end, index) {
            Err(e) => {
                return Err(e);
            },
            Ok(c) => {
                channels.push(c);
                assert(channels_view(channels@) =~= done.push(c@));
                if end >= v.len() {
                    assert(done + seq![c@] =~= done.push(c@));
                    return Ok(channels);
                }
                proof {
                    let rest = channels_from(v@, end + 1, (index + 1) as nat);
                    match rest {
                        Ok(more) => {
                            assert(done + (seq![c@] + more) =~= done.push(c@) + more);
                        },
                        Err(_) => {},
                    }
                }
                start = end + 1;
            },
        }
    }
}

} // verus!
