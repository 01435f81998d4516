//! The records that the store keeps, and what is computed from them
//! without the store: moisture fractions, plausibility, day keys, file paths.

use vstd::prelude::*;
use crate::clock::utc_now;
use crate::level::{Level, Moisture};
use crate::text::{
    find_char, first_at, padded, push_padded, push_str, starts_with_at, string_of, to_chars,
};

verus! {

/// The settings of one irrigation zone, keyed by `zone_id`.
#[derive(Debug, Clone)]
pub struct ZoneConfig {
    pub zone_id: String,
    pub name: String,
    /// Below this moisture a pulse is started.
    pub min_moisture: Level,
    /// At this moisture a watering cycle is complete.
    pub target_moisture: Level,
    /// Seconds that one pulse keeps the valve open.
    pub pulse_sec: i64,
    /// Minutes of rest after a pulse.
    pub soak_min: i64,
    /// Most seconds that the valve may be open in one UTC day.
    pub max_open_sec_per_day: i64,
    /// Most pulses in one UTC day.
    pub max_pulses_per_day: i64,
    /// Minutes after which the newest reading is too old to act on.
    pub stale_timeout_min: i64,
    pub valve_gpio_pin: i64,
}

/// One soil probe: its node, its zone and its two calibration endpoints.
#[derive(Debug, Clone)]
pub struct SensorConfig {
    pub sensor_id: String,
    pub node_id: String,
    pub zone_id: String,
    pub raw_dry: i64,
    pub raw_wet: i64,
}

/// What a zone has used of its daily allowance on one UTC day.
#[derive(Debug, Clone)]
pub struct DailyCounters {
    /// The day, as `YYYY-MM-DD`.
    pub day: String,
    pub zone_id: String,
    pub open_sec: i64,
    pub pulses: i64,
}

/// One watering, from opening to closing.
#[derive(Debug, Clone)]
pub struct WateringEventRow {
    pub ts_start: i64,
    pub ts_end: i64,
    pub zone_id: String,
    pub reason: String,
    pub result: String,
}

/// A `WateringEventRow` with its texts as characters.
pub ghost struct WateringEventView {
    pub ts_start: i64,
    pub ts_end: i64,
    pub zone_id: Seq<char>,
    pub reason: Seq<char>,
    pub result: Seq<char>,
}

impl View for WateringEventRow {
    type V = WateringEventView;

    open spec fn view(&self) -> WateringEventView {
        WateringEventView {
            ts_start: self.ts_start,
            ts_end: self.ts_end,
            zone_id: self.zone_id@,
            reason: self.reason@,
            result: self.result@,
        }
    }
}

/// `x` held between `lo` and `hi`.
pub open spec fn clamp_int(x: int, lo: int, hi: int) -> int {
    if x < lo {
        lo
    } else if x > hi {
        hi
    } else {
        x
    }
}

/// The numerator of the moisture fraction of a raw value between the
/// calibration endpoints: `(raw_dry - raw) / (raw_dry - raw_wet)` held
/// between 0 and 1, over the denominator `moisture_den`.
pub open spec fn moisture_num(raw: int, raw_dry: int, raw_wet: int) -> int {
    let range = raw_dry - raw_wet;
    if range == 0 {
        0
    } else if range > 0 {
        clamp_int(raw_dry - raw, 0, range)
    } else {
        clamp_int(raw - raw_dry, 0, -range)
    }
}

/// The denominator of the moisture fraction: the width of the calibration
/// range, or 1 where the range is empty.
pub open spec fn moisture_den(raw_dry: int, raw_wet: int) -> int {
    let range = raw_dry - raw_wet;
    if range == 0 {
        1
    } else if range > 0 {
        range
    } else {
        -range
    }
}

/// The moisture fraction of a raw reading between the calibration endpoints
/// of its sensor, held between 0 and 1. An empty calibration range gives 0.
pub fn compute_moisture(raw: i64, raw_dry: i64, raw_wet: i64) -> (m: Moisture)
    ensures
        m.num == moisture_num(raw as int, raw_dry as int, raw_wet as int),
        m.den == moisture_den(raw_dry as int, raw_wet as int),
        0 <= m.num <= m.den,
        m.den > 0,
        raw_dry == raw_wet ==> m.num == 0,
{
    let range: i128 = raw_dry as i128 - raw_wet as i128;
    if range == 0 {
        return Moisture { num: 0, den: 1 };
    }
    let (d, r): (i128, i128) = if range > 0 {
        (raw_dry as i128 - raw as i128, range)
    } else {
        (raw as i128 - raw_dry as i128, -range)
    };
    let n: i128 = if d < 0 {
        0
    } else if d > r {
        r
    } else {
        d
    };
    Moisture { num: n as u64, den: r as u64 }
}

/// A moisture fraction is held between 0 and 1, and an empty calibration
/// range gives 0.
pub proof fn lemma_moisture_unit(raw: int, raw_dry: int, raw_wet: int)
    ensures
        0 <= moisture_num(raw, raw_dry, raw_wet) <= moisture_den(raw_dry, raw_wet),
        moisture_den(raw_dry, raw_wet) > 0,
        raw_dry == raw_wet ==> moisture_num(raw, raw_dry, raw_wet) == 0,
{
}

/// Between the calibration endpoints the fraction is exact:
/// `num / den == (raw_dry - raw) / (raw_dry - raw_wet)`, cross-multiplied.
pub proof fn lemma_moisture_exact(raw: int, raw_dry: int, raw_wet: int)
    requires
        raw_dry != raw_wet,
        (raw_wet <= raw <= raw_dry) || (raw_dry <= raw <= raw_wet),
    ensures
        moisture_num(raw, raw_dry, raw_wet) * (raw_dry - raw_wet) == (raw_dry - raw)
            * moisture_den(raw_dry, raw_wet),
{
    let range = raw_dry - raw_wet;
    if range > 0 {
    } else {
        assert((raw - raw_dry) * range == (raw_dry - raw) * (-range)) by (nonlinear_arith);
    }
}

/// The margin beyond the calibration endpoints inside which a raw value is
/// still taken for a reading.
pub const SENSOR_FAILURE_MARGIN: i64 = 3000;

/// Whether `raw` lies within the margin around the calibration endpoints.
pub open spec fn plausible(raw: int, raw_dry: int, raw_wet: int) -> bool {
    let lo = if raw_wet < raw_dry { raw_wet } else { raw_dry };
    let hi = if raw_wet < raw_dry { raw_dry } else { raw_wet };
    lo - SENSOR_FAILURE_MARGIN <= raw <= hi + SENSOR_FAILURE_MARGIN
}

/// Whether a raw value lies within the margin around the calibration
/// endpoints; one far outside points to a failed sensor.
pub fn is_reading_plausible(raw: i64, raw_dry: i64, raw_wet: i64) -> (ok: bool)
    ensures
        ok == plausible(raw as int, raw_dry as int, raw_wet as int),
{
    let lo: i128 = if raw_wet < raw_dry { raw_wet as i128 } else { raw_dry as i128 };
    let hi: i128 = if raw_wet < raw_dry { raw_dry as i128 } else { raw_wet as i128 };
    let r: i128 = raw as i128;
    r >= lo - SENSOR_FAILURE_MARGIN as i128 && r <= hi + SENSOR_FAILURE_MARGIN as i128
}

/// The key of a calendar day: `YYYY-MM-DD`, each part filled up with zeros.
pub open spec fn day_text(year: int, month: int, day: int) -> Seq<char> {
    padded(year, 4) + seq!['-'] + padded(month, 2) + seq!['-'] + padded(day, 2)
}

/// The key of the given calendar day.
pub fn format_day(year: i32, month: u8, day: u8) -> (text: String)
    ensures
        text@ == day_text(year as int, month as int, day as int),
{
    let mut s: String = String::new();
    push_padded(&mut s, year as i64, 4);
    s.push('-');
    push_padded(&mut s, month as i64, 2);
    s.push('-');
    push_padded(&mut s, day as i64, 2);
    assert(s@ =~= day_text(year as int, month as int, day as int));
    s
}

/// The key of the current UTC day, under which the daily counters of a zone
/// are kept. Which day that is depends on the clock: the result is the key of
/// some calendar day.
pub fn today_yyyy_mm_dd() -> (text: String)
    ensures
        exists|year: i32, month: u8, day: u8|
            text@ == day_text(year as int, month as int, day as int),
{
    let now = utc_now();
    format_day(now.year, now.month, now.day)
}

/// The file path in a store URL: what follows `sqlite:` up to the first `?`.
/// A URL with another scheme, an in-memory store and an empty path have none.
pub open spec fn db_path(url: Seq<char>) -> Option<Seq<char>> {
    let start = "sqlite:"@.len() as int;
    let end = first_at(url, start, '?');
    if !"sqlite:"@.is_prefix_of(url) {
        None
    } else if ":memory:"@.is_prefix_of(url.skip(start)) {
        None
    } else if end == start {
        None
    } else {
        Some(url.subrange(start, end))
    }
}

/// The file path in a store URL, if it names a file.
pub fn db_file_path(db_url: &str) -> (path: Option<String>)
    ensures
        match path {
            Some(p) => db_path(db_url@) == Some(p@),
            None => db_path(db_url@) is None,
        },
{
    let v = to_chars(db_url);
    proof {
        reveal_strlit("sqlite:");
    }
    if !starts_with_at(&v, 0, "sqlite:") {
        assert(v@.skip(0) =~= v@);
        return None;
    }
    assert(v@.skip(0) =~= v@);
    if starts_with_at(&v, 7, ":memory:") {
        return None;
    }
    let end = find_char(&v, 7, '?');
    if end == 7 {
        return None;
    }
    Some(string_of(&v, 7, end))
}

/// The seconds in a day.
pub const SECONDS_PER_DAY: i64 = 86400;

/// The time before which readings are pruned: `retention_days` days before
/// `now_unix`, held within the range of `i64`.
pub fn prune_cutoff(now_unix: i64, retention_days: i64) -> (cutoff: i64)
    ensures
        cutoff == clamp_int(
            now_unix - retention_days * SECONDS_PER_DAY,
            i64::MIN as int,
            i64::MAX as int,
        ),
{
    let c: i128 = now_unix as i128 - retention_days as i128 * SECONDS_PER_DAY as i128;
    if c < -0x8000_0000_0000_0000 {
        -0x8000_0000_0000_0000
    } else if c > 0x7fff_ffff_ffff_ffff {
        0x7fff_ffff_ffff_ffff
    } else {
        c as i64
    }
}

/// Whether the working file is to be made from the backup: there is a
/// backup, and the working file is missing or empty. `working_len` is the
/// length of the working file, `None` where there is none or its length
/// cannot be told.
pub fn needs_restore(backup_exists: bool, working_len: Option<u64>) -> (restore: bool)
    ensures
        restore == (backup_exists && (working_len is None || working_len == Some(0u64))),
{
    backup_exists && match working_len {
        Some(n) => n == 0,
        None => true,
    }
}

/// `s` with every single quote written twice.
pub open spec fn quotes_doubled(s: Seq<char>) -> Seq<char>
    decreases s.len(),
{
    if s.len() == 0 {
        Seq::empty()
    } else if s.last() == '\'' {
        quotes_doubled(s.drop_last()) + seq!['\'', '\'']
    } else {
        quotes_doubled(s.drop_last()).push(s.last())
    }
}

/// The path of the file that a backup is written to before it takes the
/// place of the last one.
pub fn backup_temp_path(dest_path: &str) -> (path: String)
    ensures
        path@ == dest_path@ + ".tmp"@,
{
    let mut path: String = String::new();
    push_str(&mut path, dest_path);
    push_str(&mut path, ".tmp");
    path
}

/// The statement that writes a snapshot of the store to `path`, the path as
/// a quoted text.
pub fn vacuum_into_statement(path: &str) -> (sql: String)
    ensures
        sql@ == "VACUUM INTO '"@ + quotes_doubled(path@) + "'"@,
{
    let v = to_chars(path);
    let mut sql: String = String::new();
    push_str(&mut sql, "VACUUM INTO '");
    let ghost head = sql@;
    let mut i: usize = 0;
    while i < v.len()
        invariant
            i <= v.len(),
            sql@ == head + quotes_doubled(v@.take(i as int)),
        decreases v.len() - i,
    {
        proof {
            assert(v@.take(i + 1).drop_last() =~= v@.take(i as int));
        }
        if v[i] == '\'' {
            sql.push('\'');
            sql.push('\'');
            assert(sql@ =~= head + quotes_doubled(v@.take(i + 1)));
        } else {
            sql.push(v[i]);
            assert(sql@ =~= head + quotes_doubled(v@.take(i + 1)));
        }
        i += 1;
    }
    assert(v@.take(v.len() as int) =~= v@);
    push_str(&mut sql, "'");
    sql
}

} // verus!
