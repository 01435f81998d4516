//! The safety gate: the one place that decides whether a valve may open.

use vstd::prelude::*;
use crate::db::ZoneConfig;
use crate::text::{decimal, decimal_nat, push_int, push_nat, push_str};

verus! {

/// What the store said of the counters of a zone for the current day.
#[derive(Clone, Copy, Debug)]
pub enum CounterRead {
    /// The counters as read; both are zero for a day without a row.
    Known { pulses: i64, open_sec: i64 },
    /// The read failed.
    Failed,
}

/// The daily allowance of a zone.
#[derive(Clone, Copy, Debug)]
pub struct Limits {
    pub max_pulses_per_day: i64,
    pub max_open_sec_per_day: i64,
}

/// What the safety gate decided.
#[derive(Clone, Copy, Debug)]
pub enum GateDecision {
    /// The valve may open.
    Grant,
    /// Refused: the valve of the zone is on already.
    AlreadyOn,
    /// Refused: as many valves are on as may be on at once.
    Ceiling { active: usize },
    /// Refused: the zone has had its pulses for the day.
    Pulses { pulses: i64, limit: i64 },
    /// Refused: the zone has been open for its seconds of the day.
    OpenSeconds { open_sec: i64, limit: i64 },
}

/// The decision of the safety gate. A valve may open if and only if it is not on,
/// fewer valves are on than may be on at once, and the zone is below both its
/// daily pulse count and its daily open seconds. Where the counters could
/// not be read, or the zone has no settings, the caps do not refuse: a plant
/// that is not watered is the greater harm.
pub open spec fn gate(
    zone_on: bool,
    active: nat,
    ceiling: nat,
    limits: Option<Limits>,
    counters: CounterRead,
) -> GateDecision {
    if zone_on {
        GateDecision::AlreadyOn
    } else if active >= ceiling {
        GateDecision::Ceiling { active: active as usize }
    } else {
        match (limits, counters) {
            (Some(l), CounterRead::Known { pulses, open_sec }) => {
                if pulses >= l.max_pulses_per_day {
                    GateDecision::Pulses { pulses, limit: l.max_pulses_per_day }
                } else if open_sec >= l.max_open_sec_per_day {
                    GateDecision::OpenSeconds { open_sec, limit: l.max_open_sec_per_day }
                } else {
                    GateDecision::Grant
                }
            },
            _ => GateDecision::Grant,
        }
    }
}

/// The daily allowance in the settings of a zone, if the zone has settings.
pub open spec fn limits_of(cfg: Option<ZoneConfig>) -> Option<Limits> {
    match cfg {
        Some(c) => Some(
            Limits {
                max_pulses_per_day: c.max_pulses_per_day,
                max_open_sec_per_day: c.max_open_sec_per_day,
            },
        ),
        None => None,
    }
}

/// Decides whether the valve of a zone may open. `active` counts the zones
/// that are on.
pub fn safety_gate(
    zone_on: bool,
    active: usize,
    max_concurrent_valves: usize,
    limits: Option<Limits>,
    counters: CounterRead,
) -> (d: GateDecision)
    ensures
        d == gate(zone_on, active as nat, max_concurrent_valves as nat, limits, counters),
{
    if zone_on {
        return GateDecision::AlreadyOn;
    }
    if active >= max_concurrent_valves {
        return GateDecision::Ceiling { active };
    }
    match (limits, counters) {
        (Some(l), CounterRead::Known { pulses, open_sec }) => {
            if pulses >= l.max_pulses_per_day {
                GateDecision::Pulses { pulses, limit: l.max_pulses_per_day }
            } else if open_sec >= l.max_open_sec_per_day {
                GateDecision::OpenSeconds { open_sec, limit: l.max_open_sec_per_day }
            } else {
                GateDecision::Grant
            }
        },
        _ => GateDecision::Grant,
    }
}

/// The error event of a refusal.
pub open spec fn refusal_text(zone: Seq<char>, d: GateDecision, ceiling: nat) -> Seq<char> {
    let head = "zone "@ + zone + ": ON blocked — "@;
    match d {
        GateDecision::Grant => Seq::empty(),
        GateDecision::AlreadyOn => head + "valve already open"@,
        GateDecision::Ceiling { active } => head + decimal_nat(active as nat) + "/"@ + decimal_nat(
            ceiling,
        ) + " valves already open"@,
        GateDecision::Pulses { pulses, limit } => head + decimal(pulses as int) + "/"@ + decimal(
            limit as int,
        ) + " pulses today"@,
        GateDecision::OpenSeconds { open_sec, limit } => head + decimal(open_sec as int) + "s/"@
            + decimal(limit as int) + "s open today"@,
    }
}

/// The error event of a refusal; empty for a grant.
pub fn refusal_message(zone_id: &str, d: GateDecision, max_concurrent_valves: usize) -> (msg:
    String)
    ensures
        msg@ == refusal_text(zone_id@, d, max_concurrent_valves as nat),
{
    let mut msg: String = String::new();
    match d {
        GateDecision::Grant => {
            return msg;
        },
        _ => {},
    }
    push_str(&mut msg, "zone ");
    push_str(&mut msg, zone_id);
    push_str(&mut msg, ": ON blocked — ");
    let ghost head = msg@;
    assert(head =~= "zone "@ + zone_id@ + ": ON blocked — "@);
    match d {
        GateDecision::Grant => {},
        GateDecision::AlreadyOn => {
            push_str(&mut msg, "valve already open");
        },
        GateDecision::Ceiling { active } => {
            push_nat(&mut msg, active as u128);
            push_str(&mut msg, "/");
            push_nat(&mut msg, max_concurrent_valves as u128);
            push_str(&mut msg, " valves already open");
            assert(msg@ =~= head + decimal_nat(active as nat) + "/"@ + decimal_nat(
                max_concurrent_valves as nat,
            ) + " valves already open"@);
        },
        GateDecision::Pulses { pulses, limit } => {
            push_int(&mut msg, pulses);
            push_str(&mut msg, "/");
            push_int(&mut msg, limit);
            push_str(&mut msg, " pulses today");
            assert(msg@ =~= head + decimal(pulses as int) + "/"@ + decimal(limit as int)
                + " pulses today"@);
        },
        GateDecision::OpenSeconds { open_sec, limit } => {
            push_int(&mut msg, open_sec);
            push_str(&mut msg, "s/");
            push_int(&mut msg, limit);
            push_str(&mut msg, "s open today");
            assert(msg@ =~= head + decimal(open_sec as int) + "s/"@ + decimal(limit as int)
                + "s open today"@);
        },
    }
    msg
}

/// Every grant on counters that were read, for a zone with settings, leaves
/// the zone within its daily pulse count once the pulse is counted, and finds
/// it below its daily open seconds.
pub proof fn lemma_grant_within_caps(
    zone_on: bool,
    active: nat,
    ceiling: nat,
    limits: Limits,
    pulses: i64,
    open_sec: i64,
)
    requires
        gate(zone_on, active, ceiling, Some(limits), CounterRead::Known { pulses, open_sec })
            is Grant,
    ensures
        pulses + 1 <= limits.max_pulses_per_day,
        open_sec < limits.max_open_sec_per_day,
{
}

/// Every grant is for a valve that is off, at a moment when fewer valves are
/// on than may be on at once: with the granted valve on, the ceiling holds.
pub proof fn lemma_grant_within_ceiling(
    zone_on: bool,
    active: nat,
    ceiling: nat,
    limits: Option<Limits>,
    counters: CounterRead,
)
    requires
        gate(zone_on, active, ceiling, limits, counters) is Grant,
    ensures
        !zone_on,
        active + 1 <= ceiling,
{
}

} // verus!
