//! The configuration of a hub: operation mode, valve ceiling, zones and
//! sensors, and the rules that a configuration has to meet.

use vstd::prelude::*;
use crate::db::{SensorConfig, ZoneConfig};
use crate::level::{Level, compact, in_unit_interval, le_bits, lt_bits, push_compact};
use crate::text::{
    decimal, decimal_nat, eq_ignoring_ascii_case, is_blank, push_int, push_nat, push_str,
    same_ignoring_ascii_case, str_eq, trimmed,
};

verus! {

/// How the hub operates.
#[derive(Debug, Clone, Copy, PartialEq, Eq, Structural)]
pub enum OperationMode {
    /// The scheduler opens and closes valves by the moisture readings.
    Auto,
    /// Moisture is watched and low moisture is reported; no valve is driven.
    Monitor,
}

impl OperationMode {
    /// The word for the mode in the config file and in the status of the hub.
    pub fn label(&self) -> (word: &'static str)
        ensures
            word@ == match *self {
                OperationMode::Auto => "auto"@,
                OperationMode::Monitor => "monitor"@,
            },
    {
        match self {
            OperationMode::Auto => "auto",
            OperationMode::Monitor => "monitor",
        }
    }
}

impl Default for OperationMode {
    fn default() -> (mode: Self)
        ensures
            mode == OperationMode::Auto,
    {
        OperationMode::Auto
    }
}

/// One zone as the configuration file gives it.
#[derive(Debug)]
pub struct ZoneEntry {
    pub zone_id: String,
    pub name: String,
    pub min_moisture: Level,
    pub target_moisture: Level,
    pub pulse_sec: i64,
    pub soak_min: i64,
    pub max_open_sec_per_day: i64,
    pub max_pulses_per_day: i64,
    pub stale_timeout_min: i64,
    pub valve_gpio_pin: i64,
}

/// A `ZoneEntry` with its texts as characters.
pub ghost struct ZoneEntryView {
    pub zone_id: Seq<char>,
    pub name: Seq<char>,
    pub min_moisture: Level,
    pub target_moisture: Level,
    pub pulse_sec: i64,
    pub soak_min: i64,
    pub max_open_sec_per_day: i64,
    pub max_pulses_per_day: i64,
    pub stale_timeout_min: i64,
    pub valve_gpio_pin: i64,
}

impl View for ZoneEntry {
    type V = ZoneEntryView;

    open spec fn view(&self) -> ZoneEntryView {
        ZoneEntryView {
            zone_id: self.zone_id@,
            name: self.name@,
            min_moisture: self.min_moisture,
            target_moisture: self.target_moisture,
            pulse_sec: self.pulse_sec,
            soak_min: self.soak_min,
            max_open_sec_per_day: self.max_open_sec_per_day,
            max_pulses_per_day: self.max_pulses_per_day,
            stale_timeout_min: self.stale_timeout_min,
            valve_gpio_pin: self.valve_gpio_pin,
        }
    }
}

/// One sensor as the configuration file gives it.
#[derive(Debug)]
pub struct SensorEntry {
    pub sensor_id: String,
    pub node_id: String,
    pub zone_id: String,
    pub raw_dry: i64,
    pub raw_wet: i64,
}

/// A `SensorEntry` with its texts as characters.
pub ghost struct SensorEntryView {
    pub sensor_id: Seq<char>,
    pub node_id: Seq<char>,
    pub zone_id: Seq<char>,
    pub raw_dry: i64,
    pub raw_wet: i64,
}

impl View for SensorEntry {
    type V = SensorEntryView;

    open spec fn view(&self) -> SensorEntryView {
        SensorEntryView {
            sensor_id: self.sensor_id@,
            node_id: self.node_id@,
            zone_id: self.zone_id@,
            raw_dry: self.raw_dry,
            raw_wet: self.raw_wet,
        }
    }
}

/// The configuration of a hub.
#[derive(Debug)]
pub struct Config {
    pub mode: OperationMode,
    /// The most valves that may be on at once.
    pub max_concurrent_valves: usize,
    pub zones: Vec<ZoneEntry>,
    pub sensors: Vec<SensorEntry>,
}

/// A `Config` with its entries by their views.
pub ghost struct ConfigView {
    pub mode: OperationMode,
    pub max_concurrent_valves: usize,
    pub zones: Seq<ZoneEntryView>,
    pub sensors: Seq<SensorEntryView>,
}

/// The views of a list of zone entries.
pub open spec fn zones_view(zones: Seq<ZoneEntry>) -> Seq<ZoneEntryView> {
    Seq::new(zones.len(), |i: int| zones[i]@)
}

/// The views of a list of sensor entries.
pub open spec fn sensors_view(sensors: Seq<SensorEntry>) -> Seq<SensorEntryView> {
    Seq::new(sensors.len(), |i: int| sensors[i]@)
}

impl View for Config {
    type V = ConfigView;

    open spec fn view(&self) -> ConfigView {
        ConfigView {
            mode: self.mode,
            max_concurrent_valves: self.max_concurrent_valves,
            zones: zones_view(self.zones@),
            sensors: sensors_view(self.sensors@),
        }
    }
}

/// The valve ceiling of a configuration that names none.
pub fn default_max_concurrent_valves() -> (n: usize)
    ensures
        n == 2,
{
    2
}

/// The pulse of a zone that names none, in seconds.
pub fn default_pulse_sec() -> (n: i64)
    ensures
        n == 30,
{
    30
}

/// The soak of a zone that names none, in minutes.
pub fn default_soak_min() -> (n: i64)
    ensures
        n == 20,
{
    20
}

/// The daily open seconds of a zone that names none.
pub fn default_max_open_sec_per_day() -> (n: i64)
    ensures
        n == 180,
{
    180
}

/// The daily pulses of a zone that names none.
pub fn default_max_pulses_per_day() -> (n: i64)
    ensures
        n == 6,
{
    6
}

/// The largest raw value that the converter of a node gives.
pub const ADS1115_MAX: i64 = 32767;

/// Whether `pin` is safe to drive a relay with: a general-purpose pin of the
/// header that carries no bus, no console and no board identification.
pub open spec fn safe_pin(pin: int) -> bool {
    ||| 4 <= pin <= 6
    ||| 12 <= pin <= 13
    ||| 16 <= pin <= 27
}

/// Whether `pin` is safe to drive a relay with.
pub fn is_safe_pin(pin: i64) -> (ok: bool)
    ensures
        ok == safe_pin(pin as int),
{
    (4 <= pin && pin <= 6) || (12 <= pin && pin <= 13) || (16 <= pin && pin <= 27)
}

/// Whether `s` holds nothing but white space.
pub open spec fn blank(s: Seq<char>) -> bool {
    trimmed(s).len() == 0
}

/// The list with `text` alone where `broken` holds, the empty list where it does not.
pub open spec fn note(broken: bool, text: Seq<char>) -> Seq<Seq<char>> {
    if broken {
        seq![text]
    } else {
        Seq::empty()
    }
}

/// How an error names the zone at `index`: by its id, or by its place where it has none.
pub open spec fn zone_label(z: ZoneEntryView, index: nat) -> Seq<char> {
    if z.zone_id.len() == 0 {
        "zones["@ + decimal_nat(index) + "]"@
    } else {
        "zone '"@ + z.zone_id + "'"@
    }
}

/// How an error names the sensor at `index`: by its id, or by its place where it has none.
pub open spec fn sensor_label(s: SensorEntryView, index: nat) -> Seq<char> {
    if s.sensor_id.len() == 0 {
        "sensors["@ + decimal_nat(index) + "]"@
    } else {
        "sensor '"@ + s.sensor_id + "'"@
    }
}

/// Whether a zone before place `i` has the id of the zone at `i`.
pub open spec fn zone_id_taken(zones: Seq<ZoneEntryView>, i: int) -> bool {
    exists|j: int| 0 <= j < i && zones[j].zone_id == zones[i].zone_id
}

/// Whether a zone before place `i` has the pin of the zone at `i`.
pub open spec fn pin_taken(zones: Seq<ZoneEntryView>, i: int) -> bool {
    exists|j: int| 0 <= j < i && zones[j].valve_gpio_pin == zones[i].valve_gpio_pin
}

/// Whether a sensor before place `i` has the id of the sensor at `i`.
pub open spec fn sensor_id_taken(sensors: Seq<SensorEntryView>, i: int) -> bool {
    exists|j: int| 0 <= j < i && sensors[j].sensor_id == sensors[i].sensor_id
}

/// Whether some zone has the id `id`.
pub open spec fn zone_defined(zones: Seq<ZoneEntryView>, id: Seq<char>) -> bool {
    exists|j: int| 0 <= j < zones.len() && zones[j].zone_id == id
}

/// The safe pins as an error lists them.
pub open spec fn safe_pins_text() -> Seq<char> {
    "[4, 5, 6, 12, 13, 16, 17, 18, 19, 20, 21, 22, 23, 24, 25, 26, 27]"@
}

/// "must be positive" for the field `field` with the value `value`.
pub open spec fn positive_text(label: Seq<char>, field: Seq<char>, value: i64) -> Seq<char> {
    label + ": "@ + field + " must be positive, got "@ + decimal(value as int)
}

/// "out of range" for the moisture field `field` with the value `value`.
pub open spec fn moisture_range_text(label: Seq<char>, field: Seq<char>, value: Level) -> Seq<char> {
    label + ": "@ + field + " "@ + compact(value.bits) + " out of range [0.0, 1.0]"@
}

/// "out of range" for the calibration field `field` with the value `value`.
pub open spec fn raw_range_text(label: Seq<char>, field: Seq<char>, value: i64) -> Seq<char> {
    label + ": "@ + field + " "@ + decimal(value as int) + " out of ADS1115 range [0, "@ + decimal(
        ADS1115_MAX as int,
    ) + "]"@
}

/// `acc` and what is wrong with the identity of the zone at place `i`: the
/// id and the name are not blank, and no earlier zone has the id.
pub open spec fn zone_identity_checked(
    acc: Seq<Seq<char>>,
    zones: Seq<ZoneEntryView>,
    i: int,
) -> Seq<Seq<char>> {
    let z = zones[i];
    let l = zone_label(z, i as nat);
    acc + note(blank(z.zone_id), l + ": zone_id is empty"@) + note(
        !blank(z.zone_id) && zone_id_taken(zones, i),
        l + ": duplicate zone_id"@,
    ) + note(blank(z.name), l + ": name is empty"@)
}

/// `acc` and what is wrong with the moistures of a zone: both lie between 0
/// and 1, and the target lies above the minimum.
pub open spec fn zone_moisture_checked(acc: Seq<Seq<char>>, z: ZoneEntryView, l: Seq<char>) -> Seq<
    Seq<char>,
> {
    acc + note(
        !in_unit_interval(z.min_moisture.bits),
        moisture_range_text(l, "min_moisture"@, z.min_moisture),
    ) + note(
        !in_unit_interval(z.target_moisture.bits),
        moisture_range_text(l, "target_moisture"@, z.target_moisture),
    ) + note(
        le_bits(z.target_moisture.bits, z.min_moisture.bits),
        l + ": target_moisture ("@ + compact(z.target_moisture.bits)
            + ") must be greater than min_moisture ("@ + compact(z.min_moisture.bits) + ")"@,
    )
}

/// `acc` and what is wrong with the times and caps of a zone: the stale
/// timeout is positive; in auto mode pulse, soak and both daily caps are
/// positive, and the pulse is no longer than the daily open seconds.
pub open spec fn zone_timing_checked(
    acc: Seq<Seq<char>>,
    z: ZoneEntryView,
    l: Seq<char>,
    auto: bool,
) -> Seq<Seq<char>> {
    acc + note(auto && z.pulse_sec <= 0, positive_text(l, "pulse_sec"@, z.pulse_sec)) + note(
        auto && z.soak_min <= 0,
        positive_text(l, "soak_min"@, z.soak_min),
    ) + note(
        auto && z.max_open_sec_per_day <= 0,
        positive_text(l, "max_open_sec_per_day"@, z.max_open_sec_per_day),
    ) + note(
        auto && z.max_pulses_per_day <= 0,
        positive_text(l, "max_pulses_per_day"@, z.max_pulses_per_day),
    ) + note(
        z.stale_timeout_min <= 0,
        positive_text(l, "stale_timeout_min"@, z.stale_timeout_min),
    ) + note(
        auto && z.pulse_sec > 0 && z.max_open_sec_per_day > 0 && z.pulse_sec
            > z.max_open_sec_per_day,
        l + ": pulse_sec ("@ + decimal(z.pulse_sec as int) + ") exceeds max_open_sec_per_day ("@
            + decimal(z.max_open_sec_per_day as int) + ")"@,
    )
}

/// `acc` and what is wrong with the pin of the zone at place `i`: in auto
/// mode the pin is a safe one that no earlier zone has.
pub open spec fn zone_pin_checked(
    acc: Seq<Seq<char>>,
    zones: Seq<ZoneEntryView>,
    i: int,
    auto: bool,
) -> Seq<Seq<char>> {
    let z = zones[i];
    let l = zone_label(z, i as nat);
    acc + note(
        auto && !safe_pin(z.valve_gpio_pin as int),
        l + ": valve_gpio_pin "@ + decimal(z.valve_gpio_pin as int)
            + " is not a safe GPIO pin (allowed: "@ + safe_pins_text() + ")"@,
    ) + note(
        auto && safe_pin(z.valve_gpio_pin as int) && pin_taken(zones, i),
        l + ": valve_gpio_pin "@ + decimal(z.valve_gpio_pin as int)
            + " is already used by another zone"@,
    )
}

/// `acc` and what is wrong with the zone at place `i`, in the order in which
/// it is looked at: identity, moistures, times and caps, pin.
pub open spec fn zone_checked(
    acc: Seq<Seq<char>>,
    zones: Seq<ZoneEntryView>,
    i: int,
    auto: bool,
) -> Seq<Seq<char>> {
    let z = zones[i];
    let l = zone_label(z, i as nat);
    zone_pin_checked(
        zone_timing_checked(
            zone_moisture_checked(zone_identity_checked(acc, zones, i), z, l),
            z,
            l,
            auto,
        ),
        zones,
        i,
        auto,
    )
}

/// `acc` and what is wrong with the identity of the sensor at place `i`: the
/// id, the node and the zone are not blank, no earlier sensor has the id, and
/// the zone is one of the configuration.
pub open spec fn sensor_identity_checked(
    acc: Seq<Seq<char>>,
    sensors: Seq<SensorEntryView>,
    zones: Seq<ZoneEntryView>,
    i: int,
) -> Seq<Seq<char>> {
    let s = sensors[i];
    let l = sensor_label(s, i as nat);
    acc + note(blank(s.sensor_id), l + ": sensor_id is empty"@) + note(
        !blank(s.sensor_id) && sensor_id_taken(sensors, i),
        l + ": duplicate sensor_id"@,
    ) + note(blank(s.node_id), l + ": node_id is empty"@) + note(
        blank(s.zone_id),
        l + ": zone_id is empty"@,
    ) + note(
        !blank(s.zone_id) && !zone_defined(zones, s.zone_id),
        l + ": zone_id '"@ + s.zone_id + "' does not match any defined zone"@,
    )
}

/// `acc` and what is wrong with the calibration of a sensor: both endpoints
/// lie in the range of the converter, and they differ.
pub open spec fn sensor_calibration_checked(
    acc: Seq<Seq<char>>,
    s: SensorEntryView,
    l: Seq<char>,
) -> Seq<Seq<char>> {
    acc + note(
        s.raw_dry < 0 || s.raw_dry > ADS1115_MAX,
        raw_range_text(l, "raw_dry"@, s.raw_dry),
    ) + note(
        s.raw_wet < 0 || s.raw_wet > ADS1115_MAX,
        raw_range_text(l, "raw_wet"@, s.raw_wet),
    ) + note(
        s.raw_dry == s.raw_wet,
        l + ": raw_dry and raw_wet are both "@ + decimal(s.raw_dry as int)
            + " — calibration range is zero"@,
    )
}

/// `acc` and what is wrong with the sensor at place `i`.
pub open spec fn sensor_checked(
    acc: Seq<Seq<char>>,
    sensors: Seq<SensorEntryView>,
    zones: Seq<ZoneEntryView>,
    i: int,
) -> Seq<Seq<char>> {
    sensor_calibration_checked(
        sensor_identity_checked(acc, sensors, zones, i),
        sensors[i],
        sensor_label(sensors[i], i as nat),
    )
}

/// `acc` and what is wrong with the first `n` zones.
pub open spec fn zones_checked(
    acc: Seq<Seq<char>>,
    zones: Seq<ZoneEntryView>,
    n: int,
    auto: bool,
) -> Seq<Seq<char>>
    decreases n,
{
    if n <= 0 {
        acc
    } else {
        zone_checked(zones_checked(acc, zones, n - 1, auto), zones, n - 1, auto)
    }
}

/// `acc` and what is wrong with the first `n` sensors.
pub open spec fn sensors_checked(
    acc: Seq<Seq<char>>,
    sensors: Seq<SensorEntryView>,
    zones: Seq<ZoneEntryView>,
    n: int,
) -> Seq<Seq<char>>
    decreases n,
{
    if n <= 0 {
        acc
    } else {
        sensor_checked(sensors_checked(acc, sensors, zones, n - 1), sensors, zones, n - 1)
    }
}

/// Everything that is wrong with a configuration: the valve ceiling first,
/// then the zones, then the sensors.
pub open spec fn config_errors(c: ConfigView) -> Seq<Seq<char>> {
    let auto = c.mode is Auto;
    sensors_checked(
        zones_checked(
            note(
                auto && c.max_concurrent_valves == 0,
                "max_concurrent_valves must be at least 1"@,
            ),
            c.zones,
            c.zones.len() as int,
            auto,
        ),
        c.sensors,
        c.zones,
        c.sensors.len() as int,
    )
}

/// Whether the zone at place `i` meets every rule.
pub open spec fn zone_ok(zones: Seq<ZoneEntryView>, i: int, auto: bool) -> bool {
    let z = zones[i];
    &&& !blank(z.zone_id)
    &&& !blank(z.name)
    &&& !zone_id_taken(zones, i)
    &&& in_unit_interval(z.min_moisture.bits)
    &&& in_unit_interval(z.target_moisture.bits)
    &&& lt_bits(z.min_moisture.bits, z.target_moisture.bits)
    &&& z.stale_timeout_min > 0
    &&& auto ==> {
        &&& z.pulse_sec > 0
        &&& z.soak_min > 0
        &&& z.max_open_sec_per_day > 0
        &&& z.max_pulses_per_day > 0
        &&& z.pulse_sec <= z.max_open_sec_per_day
        &&& safe_pin(z.valve_gpio_pin as int)
        &&& !pin_taken(zones, i)
    }
}

/// Whether the sensor at place `i` meets every rule.
pub open spec fn sensor_ok(sensors: Seq<SensorEntryView>, zones: Seq<ZoneEntryView>, i: int) -> bool {
    let s = sensors[i];
    &&& !blank(s.sensor_id)
    &&& !blank(s.node_id)
    &&& !blank(s.zone_id)
    &&& !sensor_id_taken(sensors, i)
    &&& zone_defined(zones, s.zone_id)
    &&& 0 <= s.raw_dry <= ADS1115_MAX
    &&& 0 <= s.raw_wet <= ADS1115_MAX
    &&& s.raw_dry != s.raw_wet
}

/// Whether a configuration meets every rule: the ceiling is at least 1 in
/// auto mode, and every zone and every sensor is in order.
pub open spec fn config_ok(c: ConfigView) -> bool {
    &&& c.mode is Auto ==> c.max_concurrent_valves >= 1
    &&& forall|i: int| 0 <= i < c.zones.len() ==> #[trigger] zone_ok(c.zones, i, c.mode is Auto)
    &&& forall|i: int| 0 <= i < c.sensors.len() ==> #[trigger] sensor_ok(c.sensors, c.zones, i)
}

/// A look at one zone adds no error if and only if the zone is in order.
proof fn lemma_zone_checked(acc: Seq<Seq<char>>, zones: Seq<ZoneEntryView>, i: int, auto: bool)
    ensures
        zone_checked(acc, zones, i, auto).len() >= acc.len(),
        zone_checked(acc, zones, i, auto).len() == acc.len() <==> zone_ok(zones, i, auto),
{
    let z = zones[i];
    let l = zone_label(z, i as nat);
    let a = zone_identity_checked(acc, zones, i);
    let b = zone_moisture_checked(a, z, l);
    let c = zone_timing_checked(b, z, l, auto);
    let d = zone_pin_checked(c, zones, i, auto);
    assert(a.len() >= acc.len());
    assert(a.len() == acc.len() <==> !blank(z.zone_id) && !blank(z.name) && !zone_id_taken(
        zones,
        i,
    ));
    assert(b.len() >= a.len());
    assert(b.len() == a.len() <==> in_unit_interval(z.min_moisture.bits) && in_unit_interval(
        z.target_moisture.bits,
    ) && !le_bits(z.target_moisture.bits, z.min_moisture.bits));
    assert(c.len() >= b.len());
    assert(c.len() == b.len() <==> z.stale_timeout_min > 0 && (auto ==> z.pulse_sec > 0
        && z.soak_min > 0 && z.max_open_sec_per_day > 0 && z.max_pulses_per_day > 0 && z.pulse_sec
        <= z.max_open_sec_per_day));
    assert(d.len() >= c.len());
    assert(d.len() == c.len() <==> (auto ==> safe_pin(z.valve_gpio_pin as int) && !pin_taken(
        zones,
        i,
    )));
}

/// A look at one sensor adds no error if and only if the sensor is in order.
proof fn lemma_sensor_checked(
    acc: Seq<Seq<char>>,
    sensors: Seq<SensorEntryView>,
    zones: Seq<ZoneEntryView>,
    i: int,
)
    ensures
        sensor_checked(acc, sensors, zones, i).len() >= acc.len(),
        sensor_checked(acc, sensors, zones, i).len() == acc.len() <==> sensor_ok(sensors, zones, i),
{
    let s = sensors[i];
    let l = sensor_label(s, i as nat);
    let a = sensor_identity_checked(acc, sensors, zones, i);
    let b = sensor_calibration_checked(a, s, l);
    assert(a.len() >= acc.len());
    assert(a.len() == acc.len() <==> !blank(s.sensor_id) && !blank(s.node_id) && !blank(s.zone_id)
        && !sensor_id_taken(sensors, i) && zone_defined(zones, s.zone_id));
    assert(b.len() >= a.len());
    assert(b.len() == a.len() <==> 0 <= s.raw_dry <= ADS1115_MAX && 0 <= s.raw_wet <= ADS1115_MAX
        && s.raw_dry != s.raw_wet);
}

proof fn lemma_zones_checked(acc: Seq<Seq<char>>, zones: Seq<ZoneEntryView>, n: int, auto: bool)
    requires
        0 <= n <= zones.len(),
    ensures
        zones_checked(acc, zones, n, auto).len() >= acc.len(),
        zones_checked(acc, zones, n, auto).len() == acc.len() <==> forall|i: int|
            0 <= i < n ==> #[trigger] zone_ok(zones, i, auto),
    decreases n,
{
    if n > 0 {
        lemma_zones_checked(acc, zones, n - 1, auto);
        lemma_zone_checked(zones_checked(acc, zones, n - 1, auto), zones, n - 1, auto);
        if forall|i: int| 0 <= i < n ==> #[trigger] zone_ok(zones, i, auto) {
            assert(zone_ok(zones, n - 1, auto));
        }
    }
}

proof fn lemma_sensors_checked(
    acc: Seq<Seq<char>>,
    sensors: Seq<SensorEntryView>,
    zones: Seq<ZoneEntryView>,
    n: int,
)
    requires
        0 <= n <= sensors.len(),
    ensures
        sensors_checked(acc, sensors, zones, n).len() >= acc.len(),
        sensors_checked(acc, sensors, zones, n).len() == acc.len() <==> forall|i: int|
            0 <= i < n ==> #[trigger] sensor_ok(sensors, zones, i),
    decreases n,
{
    if n > 0 {
        lemma_sensors_checked(acc, sensors, zones, n - 1);
        lemma_sensor_checked(sensors_checked(acc, sensors, zones, n - 1), sensors, zones, n - 1);
        if forall|i: int| 0 <= i < n ==> #[trigger] sensor_ok(sensors, zones, i) {
            assert(sensor_ok(sensors, zones, n - 1));
        }
    }
}

/// Nothing is found wrong with a configuration if and only if it meets every rule.
pub proof fn lemma_no_error_iff_ok(c: ConfigView)
    ensures
        config_errors(c).len() == 0 <==> config_ok(c),
{
    let auto = c.mode is Auto;
    let first = note(
        auto && c.max_concurrent_valves == 0,
        "max_concurrent_valves must be at least 1"@,
    );
    lemma_zones_checked(first, c.zones, c.zones.len() as int, auto);
    lemma_sensors_checked(
        zones_checked(first, c.zones, c.zones.len() as int, auto),
        c.sensors,
        c.zones,
        c.sensors.len() as int,
    );
}

/// In a configuration that meets every rule no two zones share an id, in
/// auto mode no two zones share a pin, and no two sensors share an id.
pub proof fn lemma_ok_is_distinct(c: ConfigView, i: int, j: int)
    requires
        config_ok(c),
        0 <= i < j,
    ensures
        j < c.zones.len() ==> c.zones[i].zone_id != c.zones[j].zone_id,
        j < c.zones.len() && c.mode is Auto ==> c.zones[i].valve_gpio_pin
            != c.zones[j].valve_gpio_pin,
        j < c.sensors.len() ==> c.sensors[i].sensor_id != c.sensors[j].sensor_id,
{
    if j < c.zones.len() {
        assert(zone_ok(c.zones, j, c.mode is Auto));
    }
    if j < c.sensors.len() {
        assert(sensor_ok(c.sensors, c.zones, j));
    }
}

/// The errors one after the other, each on a line of its own behind a dash.
pub open spec fn listed(errors: Seq<Seq<char>>) -> Seq<char>
    decreases errors.len(),
{
    if errors.len() == 0 {
        Seq::empty()
    } else if errors.len() == 1 {
        errors[0]
    } else {
        listed(errors.drop_last()) + "\n  - "@ + errors.last()
    }
}

/// The message of a configuration that is refused: how many errors, and all of them.
pub open spec fn failure_text(errors: Seq<Seq<char>>) -> Seq<char> {
    "config validation failed ("@ + decimal_nat(errors.len()) + " error"@ + (if errors.len() == 1 {
        Seq::<char>::empty()
    } else {
        "s"@
    }) + "):\n  - "@ + listed(errors)
}

/// The views of a list of texts.
pub open spec fn texts_view(texts: Seq<String>) -> Seq<Seq<char>> {
    Seq::new(texts.len(), |i: int| texts[i]@)
}

fn label_of(indexed: &str, quoted: &str, id: &str, index: usize) -> (l: String)
    ensures
        l@ == if id@.len() == 0 {
            indexed@ + decimal_nat(index as nat) + "]"@
        } else {
            quoted@ + id@ + "'"@
        },
{
    let mut l: String = String::new();
    if id.is_empty() {
        push_str(&mut l, indexed);
        push_nat(&mut l, index as u128);
        push_str(&mut l, "]");
        assert(l@ =~= indexed@ + decimal_nat(index as nat) + "]"@);
    } else {
        push_str(&mut l, quoted);
        push_str(&mut l, id);
        push_str(&mut l, "'");
        assert(l@ =~= quoted@ + id@ + "'"@);
    }
    l
}

/// Adds `label` and `rest` as one error where `broken` holds.
fn note_if(errors: &mut Vec<String>, broken: bool, label: &str, rest: &str)
    ensures
        texts_view(final(errors)@) == texts_view(old(errors)@) + note(broken, label@ + rest@),
{
    if broken {
        let mut t: String = String::new();
        push_str(&mut t, label);
        push_str(&mut t, rest);
        let ghost before = texts_view(errors@);
        errors.push(t);
        assert(texts_view(errors@) =~= before + seq![label@ + rest@]);
    } else {
        assert(texts_view(errors@) =~= texts_view(errors@) + Seq::<Seq<char>>::empty());
    }
}

/// Adds `text` as an error.
fn push_text(errors: &mut Vec<String>, text: String, Ghost(broken): Ghost<bool>)
    requires
        broken,
    ensures
        texts_view(final(errors)@) == texts_view(old(errors)@) + note(broken, text@),
{
    let ghost before = texts_view(errors@);
    errors.push(text);
    assert(texts_view(errors@) =~= before + seq![text@]);
}

/// Adds nothing: the rule is met.
proof fn lemma_no_note(errors: Seq<Seq<char>>, text: Seq<char>)
    ensures
        errors == errors + note(false, text),
{
    assert(errors =~= errors + note(false, text));
}

fn positive_if(errors: &mut Vec<String>, broken: bool, label: &str, field: &str, value: i64)
    ensures
        texts_view(final(errors)@) == texts_view(old(errors)@) + note(
            broken,
            positive_text(label@, field@, value),
        ),
{
    if broken {
        let mut t: String = String::new();
        push_str(&mut t, label);
        push_str(&mut t, ": ");
        push_str(&mut t, field);
        push_str(&mut t, " must be positive, got ");
        push_int(&mut t, value);
        assert(t@ =~= positive_text(label@, field@, value));
        push_text(errors, t, Ghost(broken));
    } else {
        proof {
            lemma_no_note(texts_view(errors@), positive_text(label@, field@, value));
        }
    }
}

fn moisture_if(errors: &mut Vec<String>, broken: bool, label: &str, field: &str, value: Level)
    ensures
        texts_view(final(errors)@) == texts_view(old(errors)@) + note(
            broken,
            moisture_range_text(label@, field@, value),
        ),
{
    if broken {
        let mut t: String = String::new();
        push_str(&mut t, label);
        push_str(&mut t, ": ");
        push_str(&mut t, field);
        push_str(&mut t, " ");
        push_compact(&mut t, value);
        push_str(&mut t, " out of range [0.0, 1.0]");
        assert(t@ =~= moisture_range_text(label@, field@, value));
        push_text(errors, t, Ghost(broken));
    } else {
        proof {
            lemma_no_note(texts_view(errors@), moisture_range_text(label@, field@, value));
        }
    }
}

fn raw_if(errors: &mut Vec<String>, broken: bool, label: &str, field: &str, value: i64)
    ensures
        texts_view(final(errors)@) == texts_view(old(errors)@) + note(
            broken,
            raw_range_text(label@, field@, value),
        ),
{
    if broken {
        let mut t: String = String::new();
        push_str(&mut t, label);
        push_str(&mut t, ": ");
        push_str(&mut t, field);
        push_str(&mut t, " ");
        push_int(&mut t, value);
        push_str(&mut t, " out of ADS1115 range [0, ");
        push_int(&mut t, ADS1115_MAX);
        push_str(&mut t, "]");
        assert(t@ =~= raw_range_text(label@, field@, value));
        push_text(errors, t, Ghost(broken));
    } else {
        proof {
            lemma_no_note(texts_view(errors@), raw_range_text(label@, field@, value));
        }
    }
}

impl Config {
    fn zone_id_is_taken(&self, i: usize) -> (r: bool)
        requires
            i < self.zones@.len(),
        ensures
            r == zone_id_taken(self@.zones, i as int),
    {
        let mut j: usize = 0;
        while j < i
            invariant
                j <= i < self.zones@.len(),
                forall|k: int| 0 <= k < j ==> self@.zones[k].zone_id != self@.zones[i as int].zone_id,
            decreases i - j,
        {
            if str_eq(self.zones[j].zone_id.as_str(), self.zones[i].zone_id.as_str()) {
                assert(self@.zones[j as int].zone_id == self@.zones[i as int].zone_id);
                return true;
            }
            j += 1;
        }
        false
    }

    fn pin_is_taken(&self, i: usize) -> (r: bool)
        requires
            i < self.zones@.len(),
        ensures
            r == pin_taken(self@.zones, i as int),
    {
        let mut j: usize = 0;
        while j < i
            invariant
                j <= i < self.zones@.len(),
                forall|k: int|
                    0 <= k < j ==> self@.zones[k].valve_gpio_pin
                        != self@.zones[i as int].valve_gpio_pin,
            decreases i - j,
        {
            if self.zones[j].valve_gpio_pin == self.zones[i].valve_gpio_pin {
                assert(self@.zones[j as int].valve_gpio_pin
                    == self@.zones[i as int].valve_gpio_pin);
                return true;
            }
            j += 1;
        }
        false
    }

    fn sensor_id_is_taken(&self, i: usize) -> (r: bool)
        requires
            i < self.sensors@.len(),
        ensures
            r == sensor_id_taken(self@.sensors, i as int),
    {
        let mut j: usize = 0;
        while j < i
            invariant
                j <= i < self.sensors@.len(),
                forall|k: int|
                    0 <= k < j ==> self@.sensors[k].sensor_id != self@.sensors[i as int].sensor_id,
            decreases i - j,
        {
            if str_eq(self.sensors[j].sensor_id.as_str(), self.sensors[i].sensor_id.as_str()) {
                assert(self@.sensors[j as int].sensor_id == self@.sensors[i as int].sensor_id);
                return true;
            }
            j += 1;
        }
        false
    }

    fn zone_is_defined(&self, id: &str) -> (r: bool)
        ensures
            r == zone_defined(self@.zones, id@),
    {
        let mut j: usize = 0;
        while j < self.zones.len()
            invariant
                j <= self.zones@.len(),
                forall|k: int| 0 <= k < j ==> self@.zones[k].zone_id != id@,
            decreases self.zones@.len() - j,
        {
            if str_eq(self.zones[j].zone_id.as_str(), id) {
                assert(self@.zones[j as int].zone_id == id@);
                return true;
            }
            j += 1;
        }
        false
    }

    fn check_zone_identity(&self, i: usize, label: &str, errors: &mut Vec<String>)
        requires
            i < self.zones@.len(),
            label@ == zone_label(self@.zones[i as int], i as nat),
        ensures
            texts_view(final(errors)@) == zone_identity_checked(
                texts_view(old(errors)@),
                self@.zones,
                i as int,
            ),
    {
        let z = &self.zones[i];
        assert(self@.zones[i as int] == z@);
        let no_id = is_blank(z.zone_id.as_str());
        note_if(errors, no_id, label, ": zone_id is empty");
        let taken = !no_id && self.zone_id_is_taken(i);
        note_if(errors, taken, label, ": duplicate zone_id");
        note_if(errors, is_blank(z.name.as_str()), label, ": name is empty");
    }

    fn check_zone_moisture(&self, i: usize, label: &str, errors: &mut Vec<String>)
        requires
            i < self.zones@.len(),
        ensures
            texts_view(final(errors)@) == zone_moisture_checked(
                texts_view(old(errors)@),
                self@.zones[i as int],
                label@,
            ),
    {
        let z = &self.zones[i];
        assert(self@.zones[i as int] == z@);
        moisture_if(errors, !z.min_moisture.is_unit(), label, "min_moisture", z.min_moisture);
        moisture_if(
            errors,
            !z.target_moisture.is_unit(),
            label,
            "target_moisture",
            z.target_moisture,
        );
        let ghost text = label@ + ": target_moisture ("@ + compact(z.target_moisture.bits)
            + ") must be greater than min_moisture ("@ + compact(z.min_moisture.bits) + ")"@;
        if z.target_moisture.le(&z.min_moisture) {
            let mut t: String = String::new();
            push_str(&mut t, label);
            push_str(&mut t, ": target_moisture (");
            push_compact(&mut t, z.target_moisture);
            push_str(&mut t, ") must be greater than min_moisture (");
            push_compact(&mut t, z.min_moisture);
            push_str(&mut t, ")");
            assert(t@ =~= text);
            push_text(errors, t, Ghost(true));
        } else {
            proof {
                lemma_no_note(texts_view(errors@), text);
            }
        }
    }

    fn check_zone_timing(&self, i: usize, label: &str, errors: &mut Vec<String>)
        requires
            i < self.zones@.len(),
        ensures
            texts_view(final(errors)@) == zone_timing_checked(
                texts_view(old(errors)@),
                self@.zones[i as int],
                label@,
                self.mode is Auto,
            ),
    {
        let z = &self.zones[i];
        assert(self@.zones[i as int] == z@);
        let auto = self.mode == OperationMode::Auto;
        positive_if(errors, auto && z.pulse_sec <= 0, label, "pulse_sec", z.pulse_sec);
        positive_if(errors, auto && z.soak_min <= 0, label, "soak_min", z.soak_min);
        positive_if(
            errors,
            auto && z.max_open_sec_per_day <= 0,
            label,
            "max_open_sec_per_day",
            z.max_open_sec_per_day,
        );
        positive_if(
            errors,
            auto && z.max_pulses_per_day <= 0,
            label,
            "max_pulses_per_day",
            z.max_pulses_per_day,
        );
        positive_if(
            errors,
            z.stale_timeout_min <= 0,
            label,
            "stale_timeout_min",
            z.stale_timeout_min,
        );
        let ghost text = label@ + ": pulse_sec ("@ + decimal(z.pulse_sec as int)
            + ") exceeds max_open_sec_per_day ("@ + decimal(z.max_open_sec_per_day as int) + ")"@;
        if auto && z.pulse_sec > 0 && z.max_open_sec_per_day > 0 && z.pulse_sec
            > z.max_open_sec_per_day {
            let mut t: String = String::new();
            push_str(&mut t, label);
            push_str(&mut t, ": pulse_sec (");
            push_int(&mut t, z.pulse_sec);
            push_str(&mut t, ") exceeds max_open_sec_per_day (");
            push_int(&mut t, z.max_open_sec_per_day);
            push_str(&mut t, ")");
            assert(t@ =~= text);
            push_text(errors, t, Ghost(true));
        } else {
            proof {
                lemma_no_note(texts_view(errors@), text);
            }
        }
    }

    fn check_zone_pin(&self, i: usize, label: &str, errors: &mut Vec<String>)
        requires
            i < self.zones@.len(),
            label@ == zone_label(self@.zones[i as int], i as nat),
        ensures
            texts_view(final(errors)@) == zone_pin_checked(
                texts_view(old(errors)@),
                self@.zones,
                i as int,
                self.mode is Auto,
            ),
    {
        let z = &self.zones[i];
        assert(self@.zones[i as int] == z@);
        let auto = self.mode == OperationMode::Auto;
        let safe = is_safe_pin(z.valve_gpio_pin);
        let ghost unsafe_text = label@ + ": valve_gpio_pin "@ + decimal(z.valve_gpio_pin as int)
            + " is not a safe GPIO pin (allowed: "@ + safe_pins_text() + ")"@;
        if auto && !safe {
            let mut t: String = String::new();
            push_str(&mut t, label);
            push_str(&mut t, ": valve_gpio_pin ");
            push_int(&mut t, z.valve_gpio_pin);
            push_str(&mut t, " is not a safe GPIO pin (allowed: ");
            push_str(&mut t, "[4, 5, 6, 12, 13, 16, 17, 18, 19, 20, 21, 22, 23, 24, 25, 26, 27]");
            push_str(&mut t, ")");
            assert(t@ =~= unsafe_text);
            push_text(errors, t, Ghost(true));
        } else {
            proof {
                lemma_no_note(texts_view(errors@), unsafe_text);
            }
        }
        let ghost taken_text = label@ + ": valve_gpio_pin "@ + decimal(z.valve_gpio_pin as int)
            + " is already used by another zone"@;
        if auto && safe && self.pin_is_taken(i) {
            let mut t: String = String::new();
            push_str(&mut t, label);
            push_str(&mut t, ": valve_gpio_pin ");
            push_int(&mut t, z.valve_gpio_pin);
            push_str(&mut t, " is already used by another zone");
            assert(t@ =~= taken_text);
            push_text(errors, t, Ghost(true));
        } else {
            proof {
                lemma_no_note(texts_view(errors@), taken_text);
            }
        }
    }

    fn check_sensor_identity(&self, i: usize, label: &str, errors: &mut Vec<String>)
        requires
            i < self.sensors@.len(),
            label@ == sensor_label(self@.sensors[i as int], i as nat),
        ensures
            texts_view(final(errors)@) == sensor_identity_checked(
                texts_view(old(errors)@),
                self@.sensors,
                self@.zones,
                i as int,
            ),
    {
        let s = &self.sensors[i];
        assert(self@.sensors[i as int] == s@);
        let no_id = is_blank(s.sensor_id.as_str());
        note_if(errors, no_id, label, ": sensor_id is empty");
        let taken = !no_id && self.sensor_id_is_taken(i);
        note_if(errors, taken, label, ": duplicate sensor_id");
        note_if(errors, is_blank(s.node_id.as_str()), label, ": node_id is empty");
        let no_zone = is_blank(s.zone_id.as_str());
        note_if(errors, no_zone, label, ": zone_id is empty");
        let ghost text = label@ + ": zone_id '"@ + s.zone_id@
            + "' does not match any defined zone"@;
        if !no_zone && !self.zone_is_defined(s.zone_id.as_str()) {
            let mut t: String = String::new();
            push_str(&mut t, label);
            push_str(&mut t, ": zone_id '");
            push_str(&mut t, s.zone_id.as_str());
            push_str(&mut t, "' does not match any defined zone");
            assert(t@ =~= text);
            push_text(errors, t, Ghost(true));
        } else {
            proof {
                lemma_no_note(texts_view(errors@), text);
            }
        }
    }

    fn check_sensor_calibration(&self, i: usize, label: &str, errors: &mut Vec<String>)
        requires
            i < self.sensors@.len(),
        ensures
            texts_view(final(errors)@) == sensor_calibration_checked(
                texts_view(old(errors)@),
                self@.sensors[i as int],
                label@,
            ),
    {
        let s = &self.sensors[i];
        assert(self@.sensors[i as int] == s@);
        raw_if(errors, s.raw_dry < 0 || s.raw_dry > ADS1115_MAX, label, "raw_dry", s.raw_dry);
        raw_if(errors, s.raw_wet < 0 || s.raw_wet > ADS1115_MAX, label, "raw_wet", s.raw_wet);
        let ghost text = label@ + ": raw_dry and raw_wet are both "@ + decimal(s.raw_dry as int)
            + " — calibration range is zero"@;
        if s.raw_dry == s.raw_wet {
            let mut t: String = String::new();
            push_str(&mut t, label);
            push_str(&mut t, ": raw_dry and raw_wet are both ");
            push_int(&mut t, s.raw_dry);
            push_str(&mut t, " — calibration range is zero");
            assert(t@ =~= text);
            push_text(errors, t, Ghost(true));
        } else {
            proof {
                lemma_no_note(texts_view(errors@), text);
            }
        }
    }

    /// Looks at every zone and adds what is wrong to `errors`.
    pub fn validate_zones(&self, errors: &mut Vec<String>)
        ensures
            texts_view(final(errors)@) == zones_checked(
                texts_view(old(errors)@),
                self@.zones,
                self@.zones.len() as int,
                self.mode is Auto,
            ),
    {
        let mut i: usize = 0;
        while i < self.zones.len()
            invariant
                i <= self.zones@.len(),
                texts_view(errors@) == zones_checked(
                    texts_view(old(errors)@),
                    self@.zones,
                    i as int,
                    self.mode is Auto,
                ),
            decreases self.zones@.len() - i,
        {
            let label = label_of("zones[", "zone '", self.zones[i].zone_id.as_str(), i);
            assert(self@.zones[i as int] == self.zones@[i as int]@);
            self.check_zone_identity(i, label.as_str(), errors);
            self.check_zone_moisture(i, label.as_str(), errors);
            self.check_zone_timing(i, label.as_str(), errors);
            self.check_zone_pin(i, label.as_str(), errors);
            i += 1;
        }
    }

    /// Looks at every sensor and adds what is wrong to `errors`.
    pub fn validate_sensors(&self, errors: &mut Vec<String>)
        ensures
            texts_view(final(errors)@) == sensors_checked(
                texts_view(old(errors)@),
                self@.sensors,
                self@.zones,
                self@.sensors.len() as int,
            ),
    {
        let mut i: usize = 0;
        while i < self.sensors.len()
            invariant
                i <= self.sensors@.len(),
                texts_view(errors@) == sensors_checked(
                    texts_view(old(errors)@),
                    self@.sensors,
                    self@.zones,
                    i as int,
                ),
            decreases self.sensors@.len() - i,
        {
            let label = label_of("sensors[", "sensor '", self.sensors[i].sensor_id.as_str(), i);
            assert(self@.sensors[i as int] == self.sensors@[i as int]@);
            self.check_sensor_identity(i, label.as_str(), errors);
            self.check_sensor_calibration(i, label.as_str(), errors);
            i += 1;
        }
    }

    /// Everything that is wrong with the configuration, in order.
    pub fn problems(&self) -> (errors: Vec<String>)
        ensures
            texts_view(errors@) == config_errors(self@),
    {
        let mut errors: Vec<String> = Vec::new();
        if self.mode == OperationMode::Auto && self.max_concurrent_valves == 0 {
            let mut t: String = String::new();
            push_str(&mut t, "max_concurrent_valves must be at least 1");
            errors.push(t);
        }
        assert(texts_view(errors@) =~= note(
            self.mode is Auto && self.max_concurrent_valves == 0,
            "max_concurrent_valves must be at least 1"@,
        ));
        self.validate_zones(&mut errors);
        self.validate_sensors(&mut errors);
        errors
    }

    /// Checks the configuration against every rule and reports all that is
    /// wrong at once: `Ok` if and only if nothing is, else the message that
    /// counts and lists every error.
    pub fn validate(&self) -> (r: Result<(), String>)
        ensures
            r is Ok <==> config_ok(self@),
            r is Err ==> r->Err_0@ == failure_text(config_errors(self@)),
    {
        proof {
            lemma_no_error_iff_ok(self@);
        }
        let errors = self.problems();
        if errors.len() == 0 {
            return Ok(());
        }
        let ghost all = texts_view(errors@);
        let mut msg: String = String::new();
        push_str(&mut msg, "config validation failed (");
        push_nat(&mut msg, errors.len() as u128);
        push_str(&mut msg, " error");
        if errors.len() != 1 {
            push_str(&mut msg, "s");
        }
        push_str(&mut msg, "):\n  - ");
        let ghost head = msg@;
        let mut i: usize = 0;
        while i < errors.len()
            invariant
                i <= errors@.len(),
                all == texts_view(errors@),
                msg@ == head + listed(all.take(i as int)),
            decreases errors@.len() - i,
        {
            proof {
                assert(all.take(i + 1).drop_last() =~= all.take(i as int));
                assert(all.take(i + 1).last() == errors@[i as int]@);
            }
            if i > 0 {
                push_str(&mut msg, "\n  - ");
            }
            push_str(&mut msg, errors[i].as_str());
            assert(msg@ =~= head + listed(all.take(i + 1)));
            i += 1;
        }
        assert(all.take(errors@.len() as int) =~= all);
        assert(msg@ =~= failure_text(all));
        Err(msg)
    }
}

impl ZoneEntry {
    /// The settings of the zone as the store keeps them.
    pub fn to_config(&self) -> (c: ZoneConfig)
        ensures
            c.zone_id@ == self.zone_id@,
            c.name@ == self.name@,
            c.min_moisture == self.min_moisture,
            c.target_moisture == self.target_moisture,
            c.pulse_sec == self.pulse_sec,
            c.soak_min == self.soak_min,
            c.max_open_sec_per_day == self.max_open_sec_per_day,
            c.max_pulses_per_day == self.max_pulses_per_day,
            c.stale_timeout_min == self.stale_timeout_min,
            c.valve_gpio_pin == self.valve_gpio_pin,
    {
        ZoneConfig {
            zone_id: self.zone_id.clone(),
            name: self.name.clone(),
            min_moisture: self.min_moisture,
            target_moisture: self.target_moisture,
            pulse_sec: self.pulse_sec,
            soak_min: self.soak_min,
            max_open_sec_per_day: self.max_open_sec_per_day,
            max_pulses_per_day: self.max_pulses_per_day,
            stale_timeout_min: self.stale_timeout_min,
            valve_gpio_pin: self.valve_gpio_pin,
        }
    }
}

impl SensorEntry {
    /// The settings of the sensor as the store keeps them.
    pub fn to_config(&self) -> (c: SensorConfig)
        ensures
            c.sensor_id@ == self.sensor_id@,
            c.node_id@ == self.node_id@,
            c.zone_id@ == self.zone_id@,
            c.raw_dry == self.raw_dry,
            c.raw_wet == self.raw_wet,
    {
        SensorConfig {
            sensor_id: self.sensor_id.clone(),
            node_id: self.node_id.clone(),
            zone_id: self.zone_id.clone(),
            raw_dry: self.raw_dry,
            raw_wet: self.raw_wet,
        }
    }
}

/// The error of a zone whose pin is no pin number.
pub open spec fn pin_range_text(zone: Seq<char>, pin: i64) -> Seq<char> {
    "zone '"@ + zone + "': valve_gpio_pin "@ + decimal(pin as int) + " out of u8 range"@
}

/// The zones with their pins, for the valve board and the state. In monitor
/// mode there are none: no pin is claimed. A pin that is no pin number
/// refuses the whole list.
pub fn zone_pins(zones: &Vec<ZoneConfig>, mode: OperationMode) -> (r: Result<
    Vec<(String, u8)>,
    String,
>)
    ensures
        match r {
            Ok(pins) => if mode is Monitor {
                pins@.len() == 0
            } else {
                &&& pins@.len() == zones@.len()
                &&& forall|i: int|
                    0 <= i < pins@.len() ==> (#[trigger] pins@[i]).0@ == zones@[i].zone_id@
                        && pins@[i].1 == zones@[i].valve_gpio_pin
            },
            Err(e) => mode is Auto && exists|i: int|
                0 <= i < zones@.len() && !(0 <= (#[trigger] zones@[i]).valve_gpio_pin <= 255)
                    && e@ == pin_range_text(zones@[i].zone_id@, zones@[i].valve_gpio_pin)
                    && forall|j: int| 0 <= j < i ==> 0 <= (#[trigger] zones@[j]).valve_gpio_pin <= 255,
        },
        r is Ok <==> mode is Monitor || forall|i: int|
            0 <= i < zones@.len() ==> 0 <= (#[trigger] zones@[i]).valve_gpio_pin <= 255,
{
    let mut pins: Vec<(String, u8)> = Vec::new();
    if mode == OperationMode::Monitor {
        return Ok(pins);
    }
    let mut i: usize = 0;
    while i < zones.len()
        invariant
            i <= zones@.len(),
            mode is Auto,
            pins@.len() == i,
            forall|j: int|
                0 <= j < i ==> (#[trigger] pins@[j]).0@ == zones@[j].zone_id@ && pins@[j].1
                    == zones@[j].valve_gpio_pin,
            forall|j: int| 0 <= j < i ==> 0 <= (#[trigger] zones@[j]).valve_gpio_pin <= 255,
        decreases zones@.len() - i,
    {
        let z = &zones[i];
        if z.valve_gpio_pin < 0 || z.valve_gpio_pin > 255 {
            let mut e: String = String::new();
            push_str(&mut e, "zone '");
            push_str(&mut e, z.zone_id.as_str());
            push_str(&mut e, "': valve_gpio_pin ");
            push_int(&mut e, z.valve_gpio_pin);
            push_str(&mut e, " out of u8 range");
            assert(e@ =~= pin_range_text(z.zone_id@, z.valve_gpio_pin));
            assert(!(0 <= zones@[i as int].valve_gpio_pin <= 255));
            return Err(e);
        }
        pins.push((z.zone_id.clone(), z.valve_gpio_pin as u8));
        i += 1;
    }
    Ok(pins)
}

/// Whether the relays are active-low, by what the environment says: `1` and
/// `true` in any case say yes, any other word says no, and no word says yes.
pub fn relay_active_low(setting: Option<&str>) -> (active_low: bool)
    ensures
        active_low == match setting {
            Some(word) => word@ == "1"@ || same_ignoring_ascii_case(word@, "true"@),
            None => true,
        },
{
    match setting {
        Some(word) => str_eq(word, "1") || eq_ignoring_ascii_case(word, "true"),
        None => true,
    }
}

} // verus!
