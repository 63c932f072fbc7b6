//! The age of a thing: the simulated time since it came into being.

use crate::time_control::{formatted_parts, formatted_text, TimeController};
use vstd::prelude::*;

verus! {

/// When a thing came into being, as the simulated time that had elapsed
/// then, in microseconds.
#[derive(Debug)]
pub struct Age {
    simulated_birth_timestamp: u64,
}

impl View for Age {
    type V = nat;

    closed spec fn view(&self) -> nat {
        self.simulated_birth_timestamp as nat
    }
}

/// The simulated microseconds from `birth` to `now`; none if the clock reads
/// less than it did at birth.
pub open spec fn micros_since(birth: nat, now: nat) -> nat {
    if now >= birth {
        (now - birth) as nat
    } else {
        0
    }
}

/// The simulated time from `birth` to `now`, rounded to whole seconds, halves
/// upward.
pub open spec fn rounded_secs_since(birth: nat, now: nat) -> nat {
    (micros_since(birth, now) + 500_000) / 1_000_000
}

impl Age {
    /// The age of a thing that comes into being now.
    pub fn new(time_controller: &TimeController) -> (age: Age)
        ensures
            age@ == time_controller@.simulated_elapsed,
    {
        Age { simulated_birth_timestamp: time_controller.simulated_elapsed_micros() }
    }

    /// The age in simulated microseconds.
    pub fn age_micros(&self, time_controller: &TimeController) -> (micros: u64)
        ensures
            micros == micros_since(self@, time_controller@.simulated_elapsed),
            time_controller@.simulated_elapsed < self@ ==> micros == 0,
    {
        time_controller.simulated_elapsed_micros().saturating_sub(self.simulated_birth_timestamp)
    }

    /// The age in whole simulated seconds. It is never negative: against a
    /// clock that reads less than it did at birth the age is zero.
    pub fn age_seconds(&self, time_controller: &TimeController) -> (seconds: u64)
        ensures
            seconds == micros_since(self@, time_controller@.simulated_elapsed) / 1_000_000,
            time_controller@.simulated_elapsed < self@ ==> seconds == 0,
    {
        self.age_micros(time_controller) / 1_000_000
    }

    /// The age in whole simulated minutes.
    pub fn age_minutes(&self, time_controller: &TimeController) -> (minutes: u64)
        ensures
            minutes == micros_since(self@, time_controller@.simulated_elapsed) / 60_000_000,
    {
        self.age_micros(time_controller) / 60_000_000
    }

    /// The age in whole simulated hours.
    pub fn age_hours(&self, time_controller: &TimeController) -> (hours: u64)
        ensures
            hours == micros_since(self@, time_controller@.simulated_elapsed) / 3_600_000_000,
    {
        self.age_micros(time_controller) / 3_600_000_000
    }

    /// The age in whole simulated days.
    pub fn age_days(&self, time_controller: &TimeController) -> (days: u64)
        ensures
            days == micros_since(self@, time_controller@.simulated_elapsed) / 86_400_000_000,
    {
        self.age_micros(time_controller) / 86_400_000_000
    }

    /// The age in whole simulated years of 365 days.
    pub fn age_years(&self, time_controller: &TimeController) -> (years: u64)
        ensures
            years == micros_since(self@, time_controller@.simulated_elapsed)
                / 31_536_000_000_000,
    {
        self.age_micros(time_controller) / 31_536_000_000_000
    }

    /// The age rounded to whole seconds, as
    /// `(years, days, hours, minutes, seconds)`.
    pub fn formatted_age(&self, time_controller: &TimeController) -> (parts: (u64, u16, u8, u8, u8))
        ensures
            (parts.0 as nat, parts.1 as nat, parts.2 as nat, parts.3 as nat, parts.4 as nat)
                == formatted_parts(rounded_secs_since(self@, time_controller@.simulated_elapsed)),
    {
        let micros: u64 = self.age_micros(time_controller);
        let whole: u64 = micros / 1_000_000;
        let total_seconds: u64 = if micros % 1_000_000 >= 500_000 {
            whole + 1
        } else {
            whole
        };
        TimeController::seconds_to_formatted(total_seconds)
    }

    /// The age rounded to whole seconds, as text.
    pub fn formatted_age_string(&self, time_controller: &TimeController) -> (text: String)
        ensures
            text@ == formatted_text(
                formatted_parts(rounded_secs_since(self@, time_controller@.simulated_elapsed)),
            ),
    {
        let (years, days, hours, minutes, seconds) = self.formatted_age(time_controller);
        TimeController::formatted_string(years, days, hours, minutes, seconds)
    }
}

/// The larger units are made of the smaller ones: the whole minutes of an age
/// are the whole minutes of its whole seconds, and so on up to the years.
pub proof fn lemma_age_units_nest(micros: nat)
    ensures
        micros / 60_000_000 == micros / 1_000_000 / 60,
        micros / 3_600_000_000 == micros / 60_000_000 / 60,
        micros / 86_400_000_000 == micros / 3_600_000_000 / 24,
        micros / 31_536_000_000_000 == micros / 86_400_000_000 / 365,
{
    vstd::arithmetic::div_mod::lemma_div_denominator(micros as int, 1_000_000, 60);
    vstd::arithmetic::div_mod::lemma_div_denominator(micros as int, 60_000_000, 60);
    vstd::arithmetic::div_mod::lemma_div_denominator(micros as int, 3_600_000_000, 24);
    vstd::arithmetic::div_mod::lemma_div_denominator(micros as int, 86_400_000_000, 365);
}

} // verus!
