//! The simulated clock: a speed multiplier applied to real elapsed time.

use vstd::prelude::*;
use vstd::string::StringExecFns;

verus! {

/// Simulated time is counted in microseconds.
pub const MICROS_PER_SECOND: u64 = 1_000_000;

pub const SECS_PER_MIN: u64 = 60;

pub const SECS_PER_HOUR: u64 = 3_600;

pub const SECS_PER_DAY: u64 = 86_400;

/// A year has 365 days; leap years are not modelled.
pub const SECS_PER_YEAR: u64 = 31_536_000;

/// One simulated second per real second.
pub const SPEED_REAL_TIME: u32 = 1;

/// One simulated minute per real second.
pub const SPEED_MINUTE: u32 = 60;

/// One simulated hour per real second.
pub const SPEED_HOUR: u32 = 3_600;

/// One simulated day per real second.
pub const SPEED_DAY: u32 = 86_400;

/// Simulated time stands still.
pub const SPEED_PAUSED: u32 = 0;

/// The value a 64-bit counter holds when `n` is added up without wrapping:
/// `n` itself while it fits, the largest representable value after that.
pub open spec fn saturated(n: nat) -> nat {
    if n > u64::MAX {
        u64::MAX as nat
    } else {
        n
    }
}

/// The change that a rate per second brings about in `micros` microseconds,
/// rounded down.
pub open spec fn accrued(per_second: nat, micros: nat) -> nat {
    per_second * micros / 1_000_000
}

/// The change that a rate per second brings about in `micros` microseconds.
pub fn accrue(per_second: u64, micros: u64) -> (amount: u128)
    ensures
        amount == accrued(per_second as nat, micros as nat),
{
    assert(per_second * micros <= 0xffff_ffff_ffff_ffff * 0xffff_ffff_ffff_ffff)
        by (nonlinear_arith)
        requires
            per_second <= 0xffff_ffff_ffff_ffff,
            micros <= 0xffff_ffff_ffff_ffff,
    ;
    (per_second as u128) * (micros as u128) / 1_000_000
}

/// What a clock is, as numbers: the multiplier, the simulated time the last
/// tick added, and the simulated time since the clock was made, the last two
/// in microseconds.
pub struct ClockState {
    pub speed_factor: nat,
    pub scaled_delta: nat,
    pub simulated_elapsed: nat,
}

impl ClockState {
    /// The state after the multiplier is set to `factor`.
    pub open spec fn with_speed(self, factor: nat) -> ClockState {
        ClockState { speed_factor: factor, ..self }
    }

    /// The state after `real_delta` microseconds of real time have passed.
    pub open spec fn ticked(self, real_delta: nat) -> ClockState {
        let scaled = saturated(real_delta * self.speed_factor);
        ClockState {
            speed_factor: self.speed_factor,
            scaled_delta: scaled,
            simulated_elapsed: saturated(self.simulated_elapsed + scaled),
        }
    }

    /// Whole simulated seconds elapsed, rounded to the nearest second.
    pub open spec fn rounded_secs(self) -> nat {
        (self.simulated_elapsed + 500_000) / 1_000_000
    }
}

/// The simulated time base. Only `set_speed` and `tick` change it.
#[derive(Debug)]
pub struct TimeController {
    speed_factor: u32,
    scaled_delta: u64,
    simulated_elapsed: u64,
}

impl View for TimeController {
    type V = ClockState;

    closed spec fn view(&self) -> ClockState {
        ClockState {
            speed_factor: self.speed_factor as nat,
            scaled_delta: self.scaled_delta as nat,
            simulated_elapsed: self.simulated_elapsed as nat,
        }
    }
}

/// The decomposition of `total` seconds into years of 365 days, days, hours,
/// minutes and seconds.
pub open spec fn formatted_parts(total: nat) -> (nat, nat, nat, nat, nat) {
    (
        total / 31_536_000,
        total % 31_536_000 / 86_400,
        total % 86_400 / 3_600,
        total % 3_600 / 60,
        total % 60,
    )
}

/// The number of seconds that five parts stand for.
pub open spec fn recomposed(years: nat, days: nat, hours: nat, minutes: nat, seconds: nat) -> nat {
    years * 31_536_000 + days * 86_400 + hours * 3_600 + minutes * 60 + seconds
}

impl TimeController {
    /// A clock at time zero that runs at real-time speed.
    pub fn new() -> (clock: TimeController)
        ensures
            clock@ == (ClockState { speed_factor: 1, scaled_delta: 0, simulated_elapsed: 0 }),
    {
        TimeController { speed_factor: SPEED_REAL_TIME, scaled_delta: 0, simulated_elapsed: 0 }
    }

    /// Every view is that of a value that fits the machine's counters.
    pub proof fn lemma_view_in_range(&self)
        ensures
            self@.speed_factor <= u32::MAX,
            self@.scaled_delta <= u64::MAX,
            self@.simulated_elapsed <= u64::MAX,
    {
    }

    pub fn speed_factor(&self) -> (factor: u32)
        ensures
            factor == self@.speed_factor,
    {
        self.speed_factor
    }

    /// The simulated microseconds that the last tick added.
    pub fn scaled_delta(&self) -> (delta: u64)
        ensures
            delta == self@.scaled_delta,
    {
        self.scaled_delta
    }

    /// Simulated microseconds since the clock was made.
    pub fn simulated_elapsed_micros(&self) -> (micros: u64)
        ensures
            micros == self@.simulated_elapsed,
    {
        self.simulated_elapsed
    }

    /// Whole simulated seconds since the clock was made.
    pub fn simulated_elapsed_secs(&self) -> (secs: u64)
        ensures
            secs == self@.simulated_elapsed / 1_000_000,
    {
        self.simulated_elapsed / MICROS_PER_SECOND
    }

    /// Sets the multiplier. Zero freezes simulated time while real time goes on.
    pub fn set_speed(&mut self, factor: u32)
        ensures
            final(self)@ == old(self)@.with_speed(factor as nat),
    {
        self.speed_factor = factor;
    }

    /// Advances the clock by `real_delta` microseconds of real time. The
    /// simulated time added is `real_delta` times the multiplier; both it and
    /// the running total stop at the largest value a `u64` holds.
    pub fn tick(&mut self, real_delta: u64)
        ensures
            final(self)@ == old(self)@.ticked(real_delta as nat),
            final(self)@.simulated_elapsed >= old(self)@.simulated_elapsed,
    {
        assert(real_delta * self.speed_factor <= u64::MAX * u32::MAX) by (nonlinear_arith);
        let product: u128 = (real_delta as u128) * (self.speed_factor as u128);
        let scaled: u64 = if product > u64::MAX as u128 {
            u64::MAX
        } else {
            product as u64
        };
        self.scaled_delta = scaled;
        self.simulated_elapsed = self.simulated_elapsed.saturating_add(scaled);
    }

    /// The simulated time since the clock was made, rounded to whole seconds,
    /// halves upward.
    pub fn rounded_elapsed_secs(&self) -> (secs: u64)
        ensures
            secs == self@.rounded_secs(),
    {
        let whole: u64 = self.simulated_elapsed / MICROS_PER_SECOND;
        if self.simulated_elapsed % MICROS_PER_SECOND >= 500_000 {
            whole + 1
        } else {
            whole
        }
    }

    /// The simulated time since the clock was made, as text: the parts of the
    /// time rounded to whole seconds.
    pub fn simulated_elapsed_time_string(&self) -> (text: String)
        ensures
            text@ == formatted_text(formatted_parts(self@.rounded_secs())),
    {
        let (years, days, hours, minutes, seconds) = Self::seconds_to_formatted(
            self.rounded_elapsed_secs(),
        );
        Self::formatted_string(years, days, hours, minutes, seconds)
    }

    /// Five parts of a time as text: the years as they are, each other part
    /// in at least two digits.
    pub fn formatted_string(years: u64, days: u16, hours: u8, minutes: u8, seconds: u8) -> (text:
        String)
        ensures
            text@ == formatted_text(
                (years as nat, days as nat, hours as nat, minutes as nat, seconds as nat),
            ),
    {
        let mut text: String = String::new();
        append_decimal(&mut text, years);
        text.append(" years, ");
        append_two_digits(&mut text, days as u64);
        text.append(" days, ");
        append_two_digits(&mut text, hours as u64);
        text.append(" hours, ");
        append_two_digits(&mut text, minutes as u64);
        text.append(" minutes, ");
        append_two_digits(&mut text, seconds as u64);
        text.append(" seconds");
        text
    }

    /// Splits a number of seconds into `(years, days, hours, minutes, seconds)`,
    /// a year being 365 days. The parts add up to `total_seconds` again, and
    /// each part but the years stays below the size of the next larger unit.
    pub fn seconds_to_formatted(total_seconds: u64) -> (parts: (u64, u16, u8, u8, u8))
        ensures
            (parts.0 as nat, parts.1 as nat, parts.2 as nat, parts.3 as nat, parts.4 as nat)
                == formatted_parts(total_seconds as nat),
            recomposed(
                parts.0 as nat,
                parts.1 as nat,
                parts.2 as nat,
                parts.3 as nat,
                parts.4 as nat,
            ) == total_seconds,
            parts.1 < 365,
            parts.2 < 24,
            parts.3 < 60,
            parts.4 < 60,
    {
        let years: u64 = total_seconds / SECS_PER_YEAR;
        let rem_years: u64 = total_seconds % SECS_PER_YEAR;
        let days: u64 = rem_years / SECS_PER_DAY;
        let rem_days: u64 = rem_years % SECS_PER_DAY;
        let hours: u64 = rem_days / SECS_PER_HOUR;
        let rem_hours: u64 = rem_days % SECS_PER_HOUR;
        let minutes: u64 = rem_hours / SECS_PER_MIN;
        let seconds: u64 = rem_hours % SECS_PER_MIN;
        proof {
            lemma_formatted_parts(total_seconds as nat);
        }
        (years, days as u16, hours as u8, minutes as u8, seconds as u8)
    }
}

/// The parts of `total` are in range and add up to `total`, and the cascade
/// of remainders agrees with taking each remainder of `total` directly.
pub proof fn lemma_formatted_parts(total: nat)
    ensures
        ({
            let p = formatted_parts(total);
            &&& recomposed(p.0, p.1, p.2, p.3, p.4) == total
            &&& p.1 < 365
            &&& p.2 < 24
            &&& p.3 < 60
            &&& p.4 < 60
        }),
        total % 31_536_000 % 86_400 == total % 86_400,
        total % 86_400 % 3_600 == total % 3_600,
        total % 3_600 % 60 == total % 60,
{
    let t = total as int;
    assert(t % 31_536_000 % 86_400 == t % 86_400) by {
        vstd::arithmetic::div_mod::lemma_mod_mod(t, 86_400, 365);
    }
    assert(t % 86_400 % 3_600 == t % 3_600) by {
        vstd::arithmetic::div_mod::lemma_mod_mod(t, 3_600, 24);
    }
    assert(t % 3_600 % 60 == t % 60) by {
        vstd::arithmetic::div_mod::lemma_mod_mod(t, 60, 60);
    }
}

/// The character for one decimal digit.
pub open spec fn digit_char(digit: nat) -> char {
    if digit == 0 {
        '0'
    } else if digit == 1 {
        '1'
    } else if digit == 2 {
        '2'
    } else if digit == 3 {
        '3'
    } else if digit == 4 {
        '4'
    } else if digit == 5 {
        '5'
    } else if digit == 6 {
        '6'
    } else if digit == 7 {
        '7'
    } else if digit == 8 {
        '8'
    } else {
        '9'
    }
}

/// The decimal digits of `n`, without leading zeros.
pub open spec fn decimal(n: nat) -> Seq<char>
    decreases n,
{
    if n < 10 {
        seq![digit_char(n)]
    } else {
        decimal(n / 10).push(digit_char(n % 10))
    }
}

/// The decimal digits of `n`, with a leading zero if there is only one.
pub open spec fn two_digits(n: nat) -> Seq<char> {
    if n < 10 {
        seq!['0', digit_char(n)]
    } else {
        decimal(n)
    }
}

/// Five parts of a time as text, such as
/// `2 years, 10 days, 06 hours, 30 minutes, 15 seconds`.
pub open spec fn formatted_text(parts: (nat, nat, nat, nat, nat)) -> Seq<char> {
    decimal(parts.0) + " years, "@ + two_digits(parts.1) + " days, "@ + two_digits(parts.2)
        + " hours, "@ + two_digits(parts.3) + " minutes, "@ + two_digits(parts.4) + " seconds"@
}

/// One decimal digit as text.
fn digit_str(digit: u64) -> (text: &'static str)
    requires
        digit < 10,
    ensures
        text@ == seq![digit_char(digit as nat)],
{
    proof {
        reveal_strlit("0");
        reveal_strlit("1");
        reveal_strlit("2");
        reveal_strlit("3");
        reveal_strlit("4");
        reveal_strlit("5");
        reveal_strlit("6");
        reveal_strlit("7");
        reveal_strlit("8");
        reveal_strlit("9");
    }
    let text: &'static str = if digit == 0 {
        "0"
    } else if digit == 1 {
        "1"
    } else if digit == 2 {
        "2"
    } else if digit == 3 {
        "3"
    } else if digit == 4 {
        "4"
    } else if digit == 5 {
        "5"
    } else if digit == 6 {
        "6"
    } else if digit == 7 {
        "7"
    } else if digit == 8 {
        "8"
    } else {
        "9"
    };
    assert(text@ =~= seq![digit_char(digit as nat)]);
    text
}

/// Writes the decimal digits of `n` at the end of `text`.
fn append_decimal(text: &mut String, n: u64)
    ensures
        final(text)@ == old(text)@ + decimal(n as nat),
    decreases n,
{
    if n >= 10 {
        append_decimal(text, n / 10);
    }
    text.append(digit_str(n % 10));
    assert(text@ =~= old(text)@ + decimal(n as nat));
}

/// Writes `n` at the end of `text`, in at least two digits.
fn append_two_digits(text: &mut String, n: u64)
    ensures
        final(text)@ == old(text)@ + two_digits(n as nat),
{
    if n < 10 {
        text.append("0");
        proof {
            reveal_strlit("0");
        }
        text.append(digit_str(n));
        assert(text@ =~= old(text)@ + two_digits(n as nat));
    } else {
        append_decimal(text, n);
    }
}

/// Which of the keys that set the speed are held down.
#[derive(Clone, Copy, PartialEq, Eq, Debug, Structural)]
pub struct SpeedKeys {
    pub digit1: bool,
    pub digit2: bool,
    pub digit3: bool,
    pub digit4: bool,
    pub backquote: bool,
}

/// The speed that the keys held down select, if any: the first of real time,
/// a minute, an hour and a day per second whose key is down, or a pause.
pub open spec fn selected_speed(keys: SpeedKeys) -> Option<u32> {
    if keys.digit1 {
        Some(SPEED_REAL_TIME)
    } else if keys.digit2 {
        Some(SPEED_MINUTE)
    } else if keys.digit3 {
        Some(SPEED_HOUR)
    } else if keys.digit4 {
        Some(SPEED_DAY)
    } else if keys.backquote {
        Some(SPEED_PAUSED)
    } else {
        None
    }
}

/// Sets the speed that the keys held down select, and leaves the clock alone
/// when none of them is down. Returns the speed that was set.
pub fn control_time_speed(time_controller: &mut TimeController, keys: &SpeedKeys) -> (set: Option<
    u32,
>)
    ensures
        set == selected_speed(*keys),
        final(time_controller)@ == match selected_speed(*keys) {
            Some(factor) => old(time_controller)@.with_speed(factor as nat),
            None => old(time_controller)@,
        },
{
    let set: Option<u32> = if keys.digit1 {
        Some(SPEED_REAL_TIME)
    } else if keys.digit2 {
        Some(SPEED_MINUTE)
    } else if keys.digit3 {
        Some(SPEED_HOUR)
    } else if keys.digit4 {
        Some(SPEED_DAY)
    } else if keys.backquote {
        Some(SPEED_PAUSED)
    } else {
        None
    };
    match set {
        Some(factor) => {
            time_controller.set_speed(factor);
        },
        None => {},
    }
    set
}

/// One tick of a clock: the multiplier that is set before it, and the real
/// time that passes, in microseconds.
pub struct Tick {
    pub speed_factor: nat,
    pub real_delta: nat,
}

/// The clock after a sequence of ticks, first to last.
pub open spec fn run(clock: ClockState, ticks: Seq<Tick>) -> ClockState
    decreases ticks.len(),
{
    if ticks.len() == 0 {
        clock
    } else {
        run(clock, ticks.drop_last()).with_speed(ticks.last().speed_factor).ticked(
            ticks.last().real_delta,
        )
    }
}

/// The simulated time that a sequence of ticks adds up to: the sum of real
/// time passed times the multiplier of the tick.
pub open spec fn total_scaled(ticks: Seq<Tick>) -> nat
    decreases ticks.len(),
{
    if ticks.len() == 0 {
        0
    } else {
        total_scaled(ticks.drop_last()) + ticks.last().real_delta * ticks.last().speed_factor
    }
}

/// Simulated time never runs backward, and it is the sum of what the ticks
/// added. After any sequence of ticks, at whatever speeds, the simulated time
/// elapsed is what it was plus the sum over the ticks of real time passed
/// times the multiplier of that tick, as far as a `u64` holds it; and it is
/// no less than after any shorter run of the same ticks.
pub proof fn lemma_elapsed_is_sum_of_ticks(clock: ClockState, ticks: Seq<Tick>)
    requires
        clock.simulated_elapsed <= u64::MAX,
    ensures
        run(clock, ticks).simulated_elapsed == saturated(
            clock.simulated_elapsed + total_scaled(ticks),
        ),
        clock.simulated_elapsed + total_scaled(ticks) <= u64::MAX ==> run(
            clock,
            ticks,
        ).simulated_elapsed == clock.simulated_elapsed + total_scaled(ticks),
        run(clock, ticks).simulated_elapsed >= clock.simulated_elapsed,
        forall|n: int|
            0 <= n <= ticks.len() ==> #[trigger] run(clock, ticks.take(n)).simulated_elapsed <= run(
                clock,
                ticks,
            ).simulated_elapsed,
    decreases ticks.len(),
{
    if ticks.len() == 0 {
        assert forall|n: int| 0 <= n <= ticks.len() implies #[trigger] run(
            clock,
            ticks.take(n),
        ).simulated_elapsed <= run(clock, ticks).simulated_elapsed by {
            assert(ticks.take(n) =~= ticks);
        }
    } else {
        let before = ticks.drop_last();
        lemma_elapsed_is_sum_of_ticks(clock, before);
        assert forall|n: int| 0 <= n <= ticks.len() implies #[trigger] run(
            clock,
            ticks.take(n),
        ).simulated_elapsed <= run(clock, ticks).simulated_elapsed by {
            if n == ticks.len() {
                assert(ticks.take(n) =~= ticks);
            } else {
                assert(ticks.take(n) =~= before.take(n));
            }
        }
    }
}

/// While the clock is paused, simulated time stands still however much real
/// time passes.
pub proof fn lemma_paused_clock_stands_still(clock: ClockState, real_delta: nat)
    requires
        clock.simulated_elapsed <= u64::MAX,
    ensures
        clock.with_speed(0).ticked(real_delta).simulated_elapsed == clock.simulated_elapsed,
        clock.with_speed(0).ticked(real_delta).scaled_delta == 0,
{
    assert(real_delta * 0 == 0);
}

} // verus!
