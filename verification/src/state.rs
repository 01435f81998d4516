//! The shared runtime state of the hub: which nodes were heard of, which
//! zones are on, and a bounded ring of recent events.

use vstd::prelude::*;
use std::collections::VecDeque;
use std::time::Instant;
use crate::clock::{elapsed_secs, mono_now, utc_now};
use crate::level::Level;
use crate::table::{
    Table, has_key, index_of, keys_distinct, lemma_index_of, lemma_map_rows_keys,
    lemma_map_rows_ops, lemma_ops_distinct, lemma_push_lookup, lemma_same_keys,
    lemma_with_entry_keys, lookup, map_rows, with_entry,
};
use crate::text::{decimal, push_int, push_str};

verus! {

/// The most events that the ring keeps.
pub const MAX_EVENTS: usize = 200;

/// One raw value of one sensor, as a node reported it.
#[derive(Clone, Debug)]
pub struct SensorReading {
    pub sensor_id: String,
    pub raw: i64,
}

/// A `SensorReading` with its text as characters.
pub ghost struct ReadingView {
    pub sensor_id: Seq<char>,
    pub raw: i64,
}

impl View for SensorReading {
    type V = ReadingView;

    open spec fn view(&self) -> ReadingView {
        ReadingView { sensor_id: self.sensor_id@, raw: self.raw }
    }
}

/// The views of a list of readings.
pub open spec fn readings_view(readings: Seq<SensorReading>) -> Seq<ReadingView> {
    Seq::new(readings.len(), |i: int| readings[i]@)
}

/// What is known of one node. Times are nanoseconds since the Unix epoch.
#[derive(Clone, Debug)]
pub struct NodeState {
    pub last_seen: i128,
    /// Whether the node is connected to the bus.
    pub online: bool,
    pub readings: Vec<SensorReading>,
}

/// A `NodeState` with its readings by their views.
pub ghost struct NodeView {
    pub last_seen: i128,
    pub online: bool,
    pub readings: Seq<ReadingView>,
}

impl View for NodeState {
    type V = NodeView;

    open spec fn view(&self) -> NodeView {
        NodeView {
            last_seen: self.last_seen,
            online: self.online,
            readings: readings_view(self.readings@),
        }
    }
}

/// Whether the valve of a zone is on, on which pin it sits, and when it last changed.
#[derive(Clone, Copy, Debug)]
pub struct ZoneState {
    pub on: bool,
    pub gpio_pin: u8,
    pub last_changed: Option<i128>,
}

/// What an event is about.
#[derive(Clone, Copy, Debug, PartialEq, Eq, Structural)]
pub enum EventKind {
    Reading,
    Valve,
    Error,
    System,
    Scheduler,
}

/// One entry of the event ring.
#[derive(Clone, Debug)]
pub struct SystemEvent {
    pub ts: i128,
    pub kind: EventKind,
    pub detail: String,
}

/// A `SystemEvent` with its text as characters.
pub ghost struct EventView {
    pub ts: i128,
    pub kind: EventKind,
    pub detail: Seq<char>,
}

impl View for SystemEvent {
    type V = EventView;

    open spec fn view(&self) -> EventView {
        EventView { ts: self.ts, kind: self.kind, detail: self.detail@ }
    }
}

/// `events` after `e` has entered the ring: the oldest event leaves once the
/// ring is full.
pub open spec fn ring_push(events: Seq<EventView>, e: EventView) -> Seq<EventView> {
    if events.len() >= MAX_EVENTS {
        events.drop_first().push(e)
    } else {
        events.push(e)
    }
}

/// The number of zones that are on.
pub open spec fn count_on(zones: Seq<(Seq<char>, ZoneState)>) -> nat
    decreases zones.len(),
{
    if zones.len() == 0 {
        0
    } else {
        count_on(zones.drop_last()) + if zones.last().1.on {
            1nat
        } else {
            0nat
        }
    }
}

/// The function that takes a node to its view.
pub open spec fn node_view() -> spec_fn(NodeState) -> NodeView {
    |n: NodeState| n@
}

/// One reading in an event: the sensor, `=`, the raw value.
pub open spec fn reading_item(r: ReadingView) -> Seq<char> {
    r.sensor_id + seq!['='] + decimal(r.raw as int)
}

/// The readings of one message in an event, separated by a comma and a blank.
pub open spec fn readings_text(readings: Seq<ReadingView>) -> Seq<char>
    decreases readings.len(),
{
    if readings.len() == 0 {
        Seq::empty()
    } else if readings.len() == 1 {
        reading_item(readings[0])
    } else {
        readings_text(readings.drop_last()) + ", "@ + reading_item(readings.last())
    }
}

/// The text of a reading event: the node, a colon, its readings.
pub open spec fn reading_detail(node: Seq<char>, readings: Seq<ReadingView>) -> Seq<char> {
    node + ": "@ + readings_text(readings)
}

/// The text of a node status event.
pub open spec fn status_detail(node: Seq<char>, online: bool) -> Seq<char> {
    "node "@ + node + if online {
        " online"@
    } else {
        " offline"@
    }
}

/// The text of a valve event.
pub open spec fn valve_detail(zone: Seq<char>, on: bool) -> Seq<char> {
    zone + if on {
        " set ON"@
    } else {
        " set OFF"@
    }
}

/// A node after a status message: a node that was not known starts without
/// readings; going online renews `last_seen`, going offline does not.
pub open spec fn node_after_status(prev: Option<NodeView>, now: i128, online: bool) -> NodeView {
    match prev {
        Some(n) => NodeView {
            last_seen: if online {
                now
            } else {
                n.last_seen
            },
            online,
            readings: n.readings,
        },
        None => NodeView { last_seen: now, online, readings: Seq::empty() },
    }
}

/// The zones after the valve of `zone` was set: a zone that is not known
/// changes nothing.
pub open spec fn zones_after_valve(
    zones: Seq<(Seq<char>, ZoneState)>,
    now: i128,
    zone: Seq<char>,
    on: bool,
) -> Seq<(Seq<char>, ZoneState)> {
    if has_key(zones, zone) {
        let i = index_of(zones, zone);
        zones.update(
            i,
            (zone, ZoneState { on, gpio_pin: zones[i].1.gpio_pin, last_changed: Some(now) }),
        )
    } else {
        zones
    }
}

/// The zones after all were switched off: those that were on are off and
/// changed at `now`, the others are as before.
pub open spec fn zones_all_off(zones: Seq<(Seq<char>, ZoneState)>, now: i128) -> Seq<
    (Seq<char>, ZoneState),
> {
    Seq::new(
        zones.len(),
        |i: int|
            (
                zones[i].0,
                if zones[i].1.on {
                    ZoneState {
                        on: false,
                        gpio_pin: zones[i].1.gpio_pin,
                        last_changed: Some(now),
                    }
                } else {
                    zones[i].1
                },
            ),
    )
}

/// The state as plain values: what the contracts of this crate speak of.
pub ghost struct StateView {
    pub mqtt_connected: bool,
    pub mode: Seq<char>,
    pub nodes: Seq<(Seq<char>, NodeView)>,
    pub zones: Seq<(Seq<char>, ZoneState)>,
    /// The events, oldest first.
    pub events: Seq<EventView>,
    pub cpu_usage: Level,
    pub memory_used_bytes: u64,
    pub memory_total_bytes: u64,
}

impl StateView {
    /// What holds of every state that this module hands out: no node and no
    /// zone occurs twice, and the ring holds at most `MAX_EVENTS` events.
    pub open spec fn wf(self) -> bool {
        &&& keys_distinct(self.nodes)
        &&& keys_distinct(self.zones)
        &&& self.events.len() <= MAX_EVENTS
    }

    /// The state after an event has entered the ring.
    pub open spec fn push_event(self, e: EventView) -> StateView {
        StateView { events: ring_push(self.events, e), ..self }
    }

    /// The state after a node has reported readings: the node is online and
    /// seen at `now` with these readings, and a reading event has entered the ring.
    pub open spec fn record_reading(
        self,
        now: i128,
        node: Seq<char>,
        readings: Seq<ReadingView>,
    ) -> StateView {
        (StateView {
            nodes: with_entry(self.nodes, node, NodeView { last_seen: now, online: true, readings }),
            ..self
        }).push_event(
            EventView { ts: now, kind: EventKind::Reading, detail: reading_detail(node, readings) },
        )
    }

    /// The state after a node has announced that it is online or offline.
    pub open spec fn record_node_status(self, now: i128, node: Seq<char>, online: bool) -> StateView {
        (StateView {
            nodes: with_entry(
                self.nodes,
                node,
                node_after_status(lookup(self.nodes, node), now, online),
            ),
            ..self
        }).push_event(
            EventView { ts: now, kind: EventKind::System, detail: status_detail(node, online) },
        )
    }

    /// The state after the valve of a zone was set.
    pub open spec fn record_valve(self, now: i128, zone: Seq<char>, on: bool) -> StateView {
        (StateView { zones: zones_after_valve(self.zones, now, zone, on), ..self }).push_event(
            EventView { ts: now, kind: EventKind::Valve, detail: valve_detail(zone, on) },
        )
    }

    /// The state after all zones were switched off.
    pub open spec fn set_all_zones_off(self, now: i128) -> StateView {
        StateView { zones: zones_all_off(self.zones, now), ..self }
    }

    /// Whether the valve of `zone` is on; false for a zone that is not known.
    pub open spec fn zone_on(self, zone: Seq<char>) -> bool {
        has_key(self.zones, zone) && self.zones[index_of(self.zones, zone)].1.on
    }

    /// The number of zones that are on.
    pub open spec fn active(self) -> nat {
        count_on(self.zones)
    }
}

/// The zones that a hub starts with: each off, on its pin, never changed. A
/// zone that is named twice keeps its first place and gets the later pin.
pub open spec fn initial_zones(pairs: Seq<(String, u8)>) -> Seq<(Seq<char>, ZoneState)>
    decreases pairs.len(),
{
    if pairs.len() == 0 {
        Seq::empty()
    } else {
        with_entry(
            initial_zones(pairs.drop_last()),
            pairs.last().0@,
            ZoneState { on: false, gpio_pin: pairs.last().1, last_changed: None },
        )
    }
}

/// A copy of the state for a reader, with the events newest first.
pub struct StatusResponse {
    pub uptime_secs: u64,
    pub mqtt_connected: bool,
    pub mode: String,
    pub nodes: Table<NodeState>,
    pub zones: Table<ZoneState>,
    pub events: Vec<SystemEvent>,
    pub cpu_usage: Level,
    pub memory_used_bytes: u64,
    pub memory_total_bytes: u64,
}

/// The views of a list of events.
pub open spec fn events_view(events: Seq<SystemEvent>) -> Seq<EventView> {
    Seq::new(events.len(), |i: int| events[i]@)
}

/// The shared runtime state.
pub struct SystemState {
    started_at: Instant,
    mqtt_connected: bool,
    mode: String,
    nodes: Table<NodeState>,
    zones: Table<ZoneState>,
    events: VecDeque<SystemEvent>,
    cpu_usage: Level,
    memory_used_bytes: u64,
    memory_total_bytes: u64,
}

impl View for SystemState {
    type V = StateView;

    closed spec fn view(&self) -> StateView {
        StateView {
            mqtt_connected: self.mqtt_connected,
            mode: self.mode@,
            nodes: map_rows(self.nodes.rows(), node_view()),
            zones: self.zones.rows(),
            events: events_view(self.events@),
            cpu_usage: self.cpu_usage,
            memory_used_bytes: self.memory_used_bytes,
            memory_total_bytes: self.memory_total_bytes,
        }
    }
}

impl SystemState {
    /// The state of a hub that has just started: the given zones, all off, no
    /// node heard of, no event, the bus not connected.
    pub fn new(zone_to_gpio: &[(String, u8)], mode: &str) -> (st: Self)
        ensures
            st@.wf(),
            st@.zones == initial_zones(zone_to_gpio@),
            st@.nodes.len() == 0,
            st@.events.len() == 0,
            !st@.mqtt_connected,
            st@.mode == mode@,
            st@.cpu_usage.bits == 0,
            st@.memory_used_bytes == 0,
            st@.memory_total_bytes == 0,
    {
        let mut zones: Table<ZoneState> = Table::new();
        let mut i: usize = 0;
        while i < zone_to_gpio.len()
            invariant
                i <= zone_to_gpio.len(),
                zones.wf(),
                zones.rows() == initial_zones(zone_to_gpio@.take(i as int)),
            decreases zone_to_gpio.len() - i,
        {
            let pair = &zone_to_gpio[i];
            proof {
                assert(zone_to_gpio@.take(i + 1).drop_last() =~= zone_to_gpio@.take(i as int));
            }
            zones.put(pair.0.as_str(), ZoneState { on: false, gpio_pin: pair.1, last_changed: None });
            i += 1;
        }
        proof {
            assert(zone_to_gpio@.take(zone_to_gpio@.len() as int) =~= zone_to_gpio@);
        }
        let mut m: String = String::new();
        push_str(&mut m, mode);
        let st = SystemState {
            started_at: mono_now(),
            mqtt_connected: false,
            mode: m,
            nodes: Table::new(),
            zones,
            events: VecDeque::new(),
            cpu_usage: Level { bits: 0 },
            memory_used_bytes: 0,
            memory_total_bytes: 0,
        };
        assert(st@.mode =~= mode@);
        st
    }

    /// Whether the bus is connected.
    pub fn mqtt_connected(&self) -> (b: bool)
        ensures
            b == self@.mqtt_connected,
    {
        self.mqtt_connected
    }

    /// Notes whether the bus is connected.
    pub fn set_mqtt_connected(&mut self, connected: bool)
        ensures
            final(self)@ == (StateView { mqtt_connected: connected, ..old(self)@ }),
            old(self)@.wf() ==> final(self)@.wf(),
    {
        self.mqtt_connected = connected;
    }

    /// The operation mode label.
    pub fn mode(&self) -> (m: &String)
        ensures
            m@ == self@.mode,
    {
        &self.mode
    }

    /// The zones and their valve states.
    pub fn zones(&self) -> (z: &Table<ZoneState>)
        ensures
            z.rows() == self@.zones,
    {
        &self.zones
    }

    /// The nodes that were heard of.
    pub fn nodes(&self) -> (n: &Table<NodeState>)
        ensures
            map_rows(n.rows(), node_view()) == self@.nodes,
    {
        &self.nodes
    }

    /// The events in the ring, oldest first.
    pub fn events(&self) -> (e: &VecDeque<SystemEvent>)
        ensures
            events_view(e@) == self@.events,
    {
        &self.events
    }

    /// Enters an event into the ring; the oldest one leaves once the ring is full.
    pub fn push_event(&mut self, ts: i128, kind: EventKind, detail: String)
        ensures
            final(self)@ == old(self)@.push_event(EventView { ts, kind, detail: detail@ }),
            old(self)@.wf() ==> final(self)@.wf(),
    {
        if self.events.len() >= MAX_EVENTS {
            let _ = self.events.pop_front();
        }
        self.events.push_back(SystemEvent { ts, kind, detail });
        assert(self@.events =~= ring_push(
            old(self)@.events,
            EventView { ts, kind, detail: detail@ },
        ));
    }

    /// Records an error at the given time.
    pub fn record_error_at(&mut self, now: i128, detail: String)
        ensures
            final(self)@ == old(self)@.push_event(
                EventView { ts: now, kind: EventKind::Error, detail: detail@ },
            ),
            old(self)@.wf() ==> final(self)@.wf(),
    {
        self.push_event(now, EventKind::Error, detail);
    }

    /// Records a system event at the given time.
    pub fn record_system_at(&mut self, now: i128, detail: String)
        ensures
            final(self)@ == old(self)@.push_event(
                EventView { ts: now, kind: EventKind::System, detail: detail@ },
            ),
            old(self)@.wf() ==> final(self)@.wf(),
    {
        self.push_event(now, EventKind::System, detail);
    }

    /// Records a decision of the scheduler at the given time.
    pub fn record_scheduler_at(&mut self, now: i128, detail: String)
        ensures
            final(self)@ == old(self)@.push_event(
                EventView { ts: now, kind: EventKind::Scheduler, detail: detail@ },
            ),
            old(self)@.wf() ==> final(self)@.wf(),
    {
        self.push_event(now, EventKind::Scheduler, detail);
    }

    /// Records an error, stamped with the wall clock.
    pub fn record_error(&mut self, detail: String)
        ensures
            exists|now: i128|
                final(self)@ == old(self)@.push_event(
                    EventView { ts: now, kind: EventKind::Error, detail: detail@ },
                ),
            old(self)@.wf() ==> final(self)@.wf(),
    {
        let now = utc_now().unix_nanos;
        self.record_error_at(now, detail);
    }

    /// Records a system event, stamped with the wall clock.
    pub fn record_system(&mut self, detail: String)
        ensures
            exists|now: i128|
                final(self)@ == old(self)@.push_event(
                    EventView { ts: now, kind: EventKind::System, detail: detail@ },
                ),
            old(self)@.wf() ==> final(self)@.wf(),
    {
        let now = utc_now().unix_nanos;
        self.record_system_at(now, detail);
    }

    /// Records a decision of the scheduler, stamped with the wall clock.
    pub fn record_scheduler(&mut self, detail: String)
        ensures
            exists|now: i128|
                final(self)@ == old(self)@.push_event(
                    EventView { ts: now, kind: EventKind::Scheduler, detail: detail@ },
                ),
            old(self)@.wf() ==> final(self)@.wf(),
    {
        let now = utc_now().unix_nanos;
        self.record_scheduler_at(now, detail);
    }

    /// Records the readings of a node at the given time.
    pub fn record_reading_at(&mut self, now: i128, node_id: &str, readings: Vec<SensorReading>)
        ensures
            final(self)@ == old(self)@.record_reading(now, node_id@, readings_view(readings@)),
            old(self)@.wf() ==> final(self)@.wf(),
    {
        proof {
            if old(self)@.wf() {
                lemma_reading_keeps_wf(old(self)@, now, node_id@, readings_view(readings@));
            }
        }
        let ghost rv = readings_view(readings@);
        let mut detail: String = String::new();
        push_str(&mut detail, node_id);
        push_str(&mut detail, ": ");
        let ghost head = detail@;
        let mut i: usize = 0;
        while i < readings.len()
            invariant
                i <= readings.len(),
                rv == readings_view(readings@),
                detail@ == head + readings_text(rv.take(i as int)),
            decreases readings.len() - i,
        {
            proof {
                assert(rv.take(i + 1).drop_last() =~= rv.take(i as int));
                assert(rv.take(i + 1).last() == readings@[i as int]@);
            }
            if i > 0 {
                push_str(&mut detail, ", ");
            }
            push_str(&mut detail, readings[i].sensor_id.as_str());
            detail.push('=');
            push_int(&mut detail, readings[i].raw);
            assert(detail@ =~= head + readings_text(rv.take(i + 1)));
            i += 1;
        }
        proof {
            assert(rv.take(readings.len() as int) =~= rv);
            assert(detail@ =~= reading_detail(node_id@, rv));
            lemma_map_rows_ops(
                self.nodes.rows(),
                node_view(),
                node_id@,
                NodeState { last_seen: now, online: true, readings },
            );
        }
        self.nodes.put(node_id, NodeState { last_seen: now, online: true, readings });
        self.push_event(now, EventKind::Reading, detail);
    }

    /// Records the readings of a node, stamped with the wall clock.
    pub fn record_reading(&mut self, node_id: &str, readings: Vec<SensorReading>)
        ensures
            exists|now: i128|
                final(self)@ == old(self)@.record_reading(now, node_id@, readings_view(readings@)),
            old(self)@.wf() ==> final(self)@.wf(),
    {
        let now = utc_now().unix_nanos;
        self.record_reading_at(now, node_id, readings);
    }

    /// Records at the given time that a node is online or offline.
    pub fn record_node_status_at(&mut self, now: i128, node_id: &str, online: bool)
        ensures
            final(self)@ == old(self)@.record_node_status(now, node_id@, online),
            old(self)@.wf() ==> final(self)@.wf(),
    {
        proof {
            if old(self)@.wf() {
                lemma_status_keeps_wf(old(self)@, now, node_id@, online);
            }
        }
        proof {
            lemma_index_of(self.nodes.rows(), node_id@);
            lemma_map_rows_keys(self.nodes.rows(), node_view(), node_id@);
        }
        match self.nodes.position(node_id) {
            Some(i) => {
                let blank = NodeState { last_seen: 0, online: false, readings: Vec::new() };
                let was = self.nodes.replace(i, blank);
                let next = NodeState {
                    last_seen: if online {
                        now
                    } else {
                        was.last_seen
                    },
                    online,
                    readings: was.readings,
                };
                proof {
                    lemma_map_rows_ops(old(self).nodes.rows(), node_view(), node_id@, next);
                }
                self.nodes.set_value(i, next);
                assert(self.nodes.rows() =~= with_entry(old(self).nodes.rows(), node_id@, next));
            },
            None => {
                let next = NodeState { last_seen: now, online, readings: Vec::new() };
                proof {
                    lemma_map_rows_ops(old(self).nodes.rows(), node_view(), node_id@, next);
                    assert(next@.readings =~= Seq::<ReadingView>::empty());
                }
                self.nodes.put(node_id, next);
            },
        }
        let mut detail: String = String::new();
        push_str(&mut detail, "node ");
        push_str(&mut detail, node_id);
        if online {
            push_str(&mut detail, " online");
        } else {
            push_str(&mut detail, " offline");
        }
        assert(detail@ =~= status_detail(node_id@, online));
        self.push_event(now, EventKind::System, detail);
    }

    /// Records that a node is online or offline, stamped with the wall clock.
    pub fn record_node_status(&mut self, node_id: &str, online: bool)
        ensures
            exists|now: i128| final(self)@ == old(self)@.record_node_status(now, node_id@, online),
            old(self)@.wf() ==> final(self)@.wf(),
    {
        let now = utc_now().unix_nanos;
        self.record_node_status_at(now, node_id, online);
    }

    /// Records at the given time that the valve of a zone was set. A zone that
    /// is not known changes nothing but the ring.
    pub fn record_valve_at(&mut self, now: i128, zone_id: &str, on: bool)
        ensures
            final(self)@ == old(self)@.record_valve(now, zone_id@, on),
            old(self)@.wf() ==> final(self)@.wf(),
    {
        proof {
            if old(self)@.wf() {
                lemma_valve_keeps_wf(old(self)@, now, zone_id@, on);
            }
        }
        match self.zones.position(zone_id) {
            Some(i) => {
                let pin = self.zones.value(i).gpio_pin;
                proof {
                    lemma_index_of(self.zones.rows(), zone_id@);
                }
                self.zones.set_value(i, ZoneState { on, gpio_pin: pin, last_changed: Some(now) });
            },
            None => {},
        }
        let mut detail: String = String::new();
        push_str(&mut detail, zone_id);
        if on {
            push_str(&mut detail, " set ON");
        } else {
            push_str(&mut detail, " set OFF");
        }
        assert(detail@ =~= valve_detail(zone_id@, on));
        self.push_event(now, EventKind::Valve, detail);
    }

    /// Records that the valve of a zone was set, stamped with the wall clock.
    pub fn record_valve(&mut self, zone_id: &str, on: bool)
        ensures
            exists|now: i128| final(self)@ == old(self)@.record_valve(now, zone_id@, on),
            old(self)@.wf() ==> final(self)@.wf(),
    {
        let now = utc_now().unix_nanos;
        self.record_valve_at(now, zone_id, on);
    }

    /// Marks every zone off at the given time.
    pub fn set_all_zones_off_at(&mut self, now: i128)
        ensures
            final(self)@ == old(self)@.set_all_zones_off(now),
            old(self)@.wf() ==> final(self)@.wf(),
    {
        proof {
            if old(self)@.wf() {
                lemma_all_off_keeps_wf(old(self)@, now);
            }
        }
        let mut i: usize = 0;
        while i < self.zones.len()
            invariant
                i <= self.zones.rows().len(),
                self.zones.rows().len() == old(self).zones.rows().len(),
                forall|j: int|
                    0 <= j < i ==> self.zones.rows()[j] == zones_all_off(
                        old(self).zones.rows(),
                        now,
                    )[j],
                forall|j: int|
                    i <= j < self.zones.rows().len() ==> self.zones.rows()[j] == old(
                        self,
                    ).zones.rows()[j],
                self.started_at == old(self).started_at,
                self.mqtt_connected == old(self).mqtt_connected,
                self.mode == old(self).mode,
                self.nodes == old(self).nodes,
                self.events == old(self).events,
                self.cpu_usage == old(self).cpu_usage,
                self.memory_used_bytes == old(self).memory_used_bytes,
                self.memory_total_bytes == old(self).memory_total_bytes,
            decreases self.zones.rows().len() - i,
        {
            let z = *self.zones.value(i);
            if z.on {
                self.zones.set_value(
                    i,
                    ZoneState { on: false, gpio_pin: z.gpio_pin, last_changed: Some(now) },
                );
            }
            i += 1;
        }
        assert(self.zones.rows() =~= zones_all_off(old(self).zones.rows(), now));
    }

    /// Marks every zone off, stamped with the wall clock.
    pub fn set_all_zones_off(&mut self)
        ensures
            exists|now: i128| final(self)@ == old(self)@.set_all_zones_off(now),
            old(self)@.wf() ==> final(self)@.wf(),
    {
        let now = utc_now().unix_nanos;
        self.set_all_zones_off_at(now);
    }

    /// Notes the processor and memory use of the machine.
    pub fn update_system_metrics(&mut self, cpu: Level, mem_used: u64, mem_total: u64)
        ensures
            final(self)@ == (StateView {
                cpu_usage: cpu,
                memory_used_bytes: mem_used,
                memory_total_bytes: mem_total,
                ..old(self)@
            }),
            old(self)@.wf() ==> final(self)@.wf(),
    {
        self.cpu_usage = cpu;
        self.memory_used_bytes = mem_used;
        self.memory_total_bytes = mem_total;
    }

    /// Every node with the time at which it was last seen, in the order of the nodes.
    pub fn last_seen_list(&self) -> (list: Vec<(String, i128)>)
        ensures
            list@.len() == self@.nodes.len(),
            forall|i: int|
                0 <= i < list@.len() ==> (#[trigger] list@[i]).0@ == self@.nodes[i].0 && list@[i].1
                    == self@.nodes[i].1.last_seen,
    {
        let mut list: Vec<(String, i128)> = Vec::new();
        let mut i: usize = 0;
        while i < self.nodes.len()
            invariant
                i <= self.nodes.rows().len(),
                list@.len() == i,
                forall|j: int|
                    0 <= j < i ==> (#[trigger] list@[j]).0@ == self.nodes.rows()[j].0 && list@[j].1
                        == self.nodes.rows()[j].1.last_seen,
            decreases self.nodes.rows().len() - i,
        {
            list.push((self.nodes.key(i).clone(), self.nodes.value(i).last_seen));
            i += 1;
        }
        list
    }

    /// The number of zones that are on.
    pub fn active_zones(&self) -> (n: usize)
        ensures
            n == self@.active(),
    {
        let mut n: usize = 0;
        let mut i: usize = 0;
        while i < self.zones.len()
            invariant
                i <= self.zones.rows().len(),
                n <= i,
                n == count_on(self.zones.rows().take(i as int)),
            decreases self.zones.rows().len() - i,
        {
            proof {
                assert(self.zones.rows().take(i + 1).drop_last() =~= self.zones.rows().take(
                    i as int,
                ));
            }
            if self.zones.value(i).on {
                n += 1;
            }
            i += 1;
        }
        assert(self.zones.rows().take(self.zones.rows().len() as int) =~= self.zones.rows());
        n
    }

    /// Whether the valve of `zone_id` is on; false for a zone that is not known.
    pub fn zone_is_on(&self, zone_id: &str) -> (on: bool)
        ensures
            on == self@.zone_on(zone_id@),
    {
        match self.zones.position(zone_id) {
            Some(i) => self.zones.value(i).on,
            None => false,
        }
    }

    /// A copy of the state for a reader: the same nodes, zones and figures,
    /// the events newest first, and the seconds since the hub started by the
    /// monotonic clock.
    pub fn to_status(&self) -> (r: StatusResponse)
        ensures
            r.mqtt_connected == self@.mqtt_connected,
            r.mode@ == self@.mode,
            map_rows(r.nodes.rows(), node_view()) == self@.nodes,
            r.zones.rows() == self@.zones,
            events_view(r.events@) == self@.events.reverse(),
            r.cpu_usage == self@.cpu_usage,
            r.memory_used_bytes == self@.memory_used_bytes,
            r.memory_total_bytes == self@.memory_total_bytes,
    {
        let mut events: Vec<SystemEvent> = Vec::new();
        let n = self.events.len();
        let mut i: usize = 0;
        while i < n
            invariant
                i <= n,
                n == self.events@.len(),
                events@.len() == i,
                forall|j: int| 0 <= j < i ==> (#[trigger] events@[j])@ == self.events@[n - 1 - j]@,
            decreases n - i,
        {
            let e = &self.events[n - 1 - i];
            events.push(SystemEvent { ts: e.ts, kind: e.kind, detail: e.detail.clone() });
            i += 1;
        }
        assert(events_view(events@) =~= self@.events.reverse());
        StatusResponse {
            uptime_secs: elapsed_secs(&self.started_at),
            mqtt_connected: self.mqtt_connected,
            mode: self.mode.clone(),
            nodes: copy_nodes(&self.nodes),
            zones: copy_zones(&self.zones),
            events,
            cpu_usage: self.cpu_usage,
            memory_used_bytes: self.memory_used_bytes,
            memory_total_bytes: self.memory_total_bytes,
        }
    }
}

/// A copy of a list of readings.
pub fn copy_readings(readings: &Vec<SensorReading>) -> (c: Vec<SensorReading>)
    ensures
        readings_view(c@) == readings_view(readings@),
{
    let mut c: Vec<SensorReading> = Vec::new();
    let mut i: usize = 0;
    while i < readings.len()
        invariant
            i <= readings.len(),
            c@.len() == i,
            forall|j: int| 0 <= j < i ==> (#[trigger] c@[j])@ == readings@[j]@,
        decreases readings.len() - i,
    {
        c.push(SensorReading { sensor_id: readings[i].sensor_id.clone(), raw: readings[i].raw });
        i += 1;
    }
    assert(readings_view(c@) =~= readings_view(readings@));
    c
}

fn copy_nodes(nodes: &Table<NodeState>) -> (c: Table<NodeState>)
    ensures
        map_rows(c.rows(), node_view()) == map_rows(nodes.rows(), node_view()),
{
    let mut c: Table<NodeState> = Table::new();
    let mut i: usize = 0;
    while i < nodes.len()
        invariant
            i <= nodes.rows().len(),
            map_rows(c.rows(), node_view()) == map_rows(nodes.rows().take(i as int), node_view()),
        decreases nodes.rows().len() - i,
    {
        let n = nodes.value(i);
        let copy = NodeState {
            last_seen: n.last_seen,
            online: n.online,
            readings: copy_readings(&n.readings),
        };
        proof {
            assert(copy@ == nodes.rows()[i as int].1@);
        }
        let ghost before = c.rows();
        c.push_row(nodes.key(i).as_str(), copy);
        assert(map_rows(c.rows(), node_view()) =~= map_rows(before, node_view()).push(
            (nodes.rows()[i as int].0, copy@),
        ));
        assert(map_rows(c.rows(), node_view()) =~= map_rows(
            nodes.rows().take(i + 1),
            node_view(),
        ));
        i += 1;
    }
    assert(nodes.rows().take(nodes.rows().len() as int) =~= nodes.rows());
    c
}

fn copy_zones(zones: &Table<ZoneState>) -> (c: Table<ZoneState>)
    ensures
        c.rows() == zones.rows(),
{
    let mut c: Table<ZoneState> = Table::new();
    let mut i: usize = 0;
    while i < zones.len()
        invariant
            i <= zones.rows().len(),
            c.rows() == zones.rows().take(i as int),
        decreases zones.rows().len() - i,
    {
        c.push_row(zones.key(i).as_str(), *zones.value(i));
        assert(c.rows() =~= zones.rows().take(i + 1));
        i += 1;
    }
    assert(zones.rows().take(zones.rows().len() as int) =~= zones.rows());
    c
}

/// Replacing one zone changes the number of zones that are on by what that
/// zone contributes.
pub proof fn lemma_count_on_update(
    zones: Seq<(Seq<char>, ZoneState)>,
    i: int,
    row: (Seq<char>, ZoneState),
)
    requires
        0 <= i < zones.len(),
    ensures
        count_on(zones.update(i, row)) + (if zones[i].1.on { 1nat } else { 0nat }) == count_on(zones)
            + (if row.1.on { 1nat } else { 0nat }),
    decreases zones.len(),
{
    let next = zones.update(i, row);
    if i == zones.len() - 1 {
        assert(next.drop_last() =~= zones.drop_last());
    } else {
        assert(next.drop_last() =~= zones.drop_last().update(i, row));
        lemma_count_on_update(zones.drop_last(), i, row);
    }
}

/// Once all zones were switched off, none is on.
pub proof fn lemma_count_on_all_off(zones: Seq<(Seq<char>, ZoneState)>, now: i128)
    ensures
        count_on(zones_all_off(zones, now)) == 0,
    decreases zones.len(),
{
    if zones.len() > 0 {
        assert(zones_all_off(zones, now).drop_last() =~= zones_all_off(zones.drop_last(), now));
        lemma_count_on_all_off(zones.drop_last(), now);
    }
}

/// Readings of a node leave the state well formed: no node occurs twice, and
/// the ring holds at most `MAX_EVENTS` events.
pub proof fn lemma_reading_keeps_wf(
    s: StateView,
    now: i128,
    node: Seq<char>,
    readings: Seq<ReadingView>,
)
    requires
        s.wf(),
    ensures
        s.record_reading(now, node, readings).wf(),
{
    lemma_ops_distinct(s.nodes, node, NodeView { last_seen: now, online: true, readings });
}

/// A status message of a node leaves the state well formed.
pub proof fn lemma_status_keeps_wf(s: StateView, now: i128, node: Seq<char>, online: bool)
    requires
        s.wf(),
    ensures
        s.record_node_status(now, node, online).wf(),
{
    lemma_ops_distinct(s.nodes, node, node_after_status(lookup(s.nodes, node), now, online));
}

/// Setting a valve leaves the state well formed.
pub proof fn lemma_valve_keeps_wf(s: StateView, now: i128, zone: Seq<char>, on: bool)
    requires
        s.wf(),
    ensures
        s.record_valve(now, zone, on).wf(),
{
    lemma_index_of(s.zones, zone);
    let v = zones_after_valve(s.zones, now, zone, on);
    assert forall|i: int, j: int| 0 <= i < j < v.len() implies v[i].0 != v[j].0 by {
        assert(s.zones[i].0 != s.zones[j].0);
    }
}

/// Switching all zones off leaves the state well formed.
pub proof fn lemma_all_off_keeps_wf(s: StateView, now: i128)
    requires
        s.wf(),
    ensures
        s.set_all_zones_off(now).wf(),
{
    let off = zones_all_off(s.zones, now);
    assert forall|i: int, j: int| 0 <= i < j < off.len() implies off[i].0 != off[j].0 by {
        assert(s.zones[i].0 != s.zones[j].0);
    }
}

/// Setting the valve of one zone sets that zone, if the state knows it, and
/// leaves every other zone as it is.
pub proof fn lemma_zone_after_valve(
    s: StateView,
    now: i128,
    zone: Seq<char>,
    on: bool,
    other: Seq<char>,
)
    ensures
        has_key(s.record_valve(now, zone, on).zones, other) == has_key(s.zones, other),
        s.record_valve(now, zone, on).zone_on(other) == if other == zone {
            has_key(s.zones, zone) && on
        } else {
            s.zone_on(other)
        },
{
    let next = zones_after_valve(s.zones, now, zone, on);
    lemma_index_of(s.zones, zone);
    lemma_index_of(s.zones, other);
    assert forall|i: int| 0 <= i < s.zones.len() implies s.zones[i].0 == next[i].0 by {}
    lemma_same_keys(s.zones, next, other);
}

/// Once all zones were switched off, no zone is on.
pub proof fn lemma_zones_all_off(s: StateView, now: i128, zone: Seq<char>)
    ensures
        has_key(s.set_all_zones_off(now).zones, zone) == has_key(s.zones, zone),
        !s.set_all_zones_off(now).zone_on(zone),
{
    let next = zones_all_off(s.zones, now);
    lemma_index_of(next, zone);
    assert forall|i: int| 0 <= i < s.zones.len() implies s.zones[i].0 == next[i].0 by {}
    lemma_same_keys(s.zones, next, zone);
}

/// In the state of a hub that has just started no zone is on.
pub proof fn lemma_new_state_is_off(pairs: Seq<(String, u8)>, zone: Seq<char>)
    ensures
        !(has_key(initial_zones(pairs), zone) && initial_zones(pairs)[index_of(
            initial_zones(pairs),
            zone,
        )].1.on),
    decreases pairs.len(),
{
    if pairs.len() > 0 {
        let front = initial_zones(pairs.drop_last());
        let key = pairs.last().0@;
        let fresh = ZoneState { on: false, gpio_pin: pairs.last().1, last_changed: None };
        lemma_new_state_is_off(pairs.drop_last(), zone);
        lemma_index_of(front, key);
        lemma_index_of(front, zone);
        lemma_with_entry_keys(front, key, fresh, zone);
        let next = with_entry(front, key, fresh);
        lemma_index_of(next, zone);
        if has_key(front, key) {
            assert forall|i: int| 0 <= i < front.len() implies front[i].0 == next[i].0 by {}
            lemma_same_keys(front, next, zone);
        } else if has_key(next, zone) {
            let i = index_of(next, zone);
            if i < front.len() {
                assert(front[i].0 == zone);
                lemma_push_lookup(front, (key, fresh), zone);
            }
        }
    }
}

} // verus!
