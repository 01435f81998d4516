//! The scenarios of the sensor simulator of a node.

use vstd::prelude::*;
use crate::text::{eq_ignoring_ascii_case, same_ignoring_ascii_case, str_eq, trim_text, trimmed};

verus! {

/// A profile of simulated soil.
#[derive(Debug, Clone, Copy, PartialEq, Eq, Structural)]
pub enum Scenario {
    /// Starts mid-range and dries slowly.
    Drying,
    /// Stays near the middle, with little noise.
    Stable,
    /// Much noise and many spikes.
    Flaky,
    /// Starts near the wet end and dries very slowly.
    Wet,
}

/// The scenario that a name stands for, whatever the case of its ASCII
/// letters; every name that is none of `stable`, `flaky` and `wet` stands
/// for `Drying`.
pub open spec fn scenario_of(name: Seq<char>) -> Scenario {
    if same_ignoring_ascii_case(name, "stable"@) {
        Scenario::Stable
    } else if same_ignoring_ascii_case(name, "flaky"@) {
        Scenario::Flaky
    } else if same_ignoring_ascii_case(name, "wet"@) {
        Scenario::Wet
    } else {
        Scenario::Drying
    }
}

/// What a payload on the valve topic means to simulated soil: `open` wets
/// it, `close` lets it dry, anything else means nothing. White space around
/// the word does not count.
pub open spec fn watering_meant(payload: Seq<char>) -> Option<bool> {
    if trimmed(payload) == "open"@ {
        Some(true)
    } else if trimmed(payload) == "close"@ {
        Some(false)
    } else {
        None
    }
}

/// Whether a payload on the valve topic starts or ends the wetting of
/// simulated soil.
pub fn watering_of(payload: &str) -> (wet: Option<bool>)
    ensures
        wet == watering_meant(payload@),
{
    let word = trim_text(payload);
    if str_eq(word.as_str(), "open") {
        Some(true)
    } else if str_eq(word.as_str(), "close") {
        Some(false)
    } else {
        None
    }
}

impl Scenario {
    /// The scenario that `s` names; `Drying` where it names none.
    pub fn from_str_lossy(s: &str) -> (scenario: Self)
        ensures
            scenario == scenario_of(s@),
    {
        if eq_ignoring_ascii_case(s, "stable") {
            Scenario::Stable
        } else if eq_ignoring_ascii_case(s, "flaky") {
            Scenario::Flaky
        } else if eq_ignoring_ascii_case(s, "wet") {
            Scenario::Wet
        } else {
            Scenario::Drying
        }
    }

    /// The name of the scenario, in lower case.
    pub fn name(&self) -> (text: &'static str)
        ensures
            text@ == match *self {
                Scenario::Drying => "drying"@,
                Scenario::Stable => "stable"@,
                Scenario::Flaky => "flaky"@,
                Scenario::Wet => "wet"@,
            },
    {
        match self {
            Scenario::Drying => "drying",
            Scenario::Stable => "stable",
            Scenario::Flaky => "flaky",
            Scenario::Wet => "wet",
        }
    }
}

} // verus!
