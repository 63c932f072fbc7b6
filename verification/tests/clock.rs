use wildlife_sim::age::Age;
use wildlife_sim::time_control::{control_time_speed, SpeedKeys, TimeController};

fn no_keys() -> SpeedKeys {
    SpeedKeys {
        digit1: false,
        digit2: false,
        digit3: false,
        digit4: false,
        backquote: false,
    }
}

#[test]
fn new_clock_runs_in_real_time_from_zero() {
    let clock = TimeController::new();
    assert_eq!(clock.speed_factor(), 1);
    assert_eq!(clock.scaled_delta(), 0);
    assert_eq!(clock.simulated_elapsed_micros(), 0);
    assert_eq!(clock.simulated_elapsed_secs(), 0);
}

#[test]
fn tick_scales_real_time_by_the_speed() {
    let mut clock = TimeController::new();
    clock.set_speed(60);
    clock.tick(15_625);
    assert_eq!(clock.scaled_delta(), 937_500);
    assert_eq!(clock.simulated_elapsed_micros(), 937_500);
    assert_eq!(clock.speed_factor(), 60);
}

#[test]
fn elapsed_is_the_sum_of_each_tick_times_its_speed() {
    let mut clock = TimeController::new();
    let ticks: [(u32, u64); 5] = [
        (1, 1_000_000),
        (60, 500_000),
        (0, 1_000_000),
        (86_400, 2),
        (3_600, 0),
    ];
    let mut sum: u64 = 0;
    let mut last: u64 = 0;
    for (speed, real_delta) in ticks {
        clock.set_speed(speed);
        clock.tick(real_delta);
        sum += real_delta * speed as u64;
        assert_eq!(clock.scaled_delta(), real_delta * speed as u64);
        assert_eq!(clock.simulated_elapsed_micros(), sum);
        assert!(clock.simulated_elapsed_micros() >= last);
        last = clock.simulated_elapsed_micros();
    }
    assert_eq!(clock.simulated_elapsed_micros(), 31_172_800);
    assert_eq!(clock.simulated_elapsed_secs(), 31);
}

#[test]
fn paused_clock_stands_still() {
    let mut clock = TimeController::new();
    clock.tick(2_000_000);
    clock.set_speed(0);
    clock.tick(u64::MAX);
    assert_eq!(clock.scaled_delta(), 0);
    assert_eq!(clock.simulated_elapsed_micros(), 2_000_000);
}

#[test]
fn clock_stops_at_the_largest_time_it_can_hold() {
    let mut clock = TimeController::new();
    clock.set_speed(u32::MAX);
    clock.tick(u64::MAX);
    assert_eq!(clock.scaled_delta(), u64::MAX);
    assert_eq!(clock.simulated_elapsed_micros(), u64::MAX);
    clock.set_speed(1);
    clock.tick(5);
    assert_eq!(clock.scaled_delta(), 5);
    assert_eq!(clock.simulated_elapsed_micros(), u64::MAX);
}

#[test]
fn scaled_delta_just_fits() {
    let mut clock = TimeController::new();
    clock.set_speed(2);
    clock.tick(u64::MAX / 2);
    assert_eq!(clock.scaled_delta(), u64::MAX - 1);
    assert_eq!(clock.simulated_elapsed_micros(), u64::MAX - 1);
    clock.tick(1);
    assert_eq!(clock.scaled_delta(), 2);
    assert_eq!(clock.simulated_elapsed_micros(), u64::MAX);
}

#[test]
fn keys_select_the_speed_presets() {
    let mut clock = TimeController::new();
    let mut keys = no_keys();
    keys.digit2 = true;
    assert_eq!(control_time_speed(&mut clock, &keys), Some(60));
    assert_eq!(clock.speed_factor(), 60);
    let mut keys = no_keys();
    keys.digit3 = true;
    assert_eq!(control_time_speed(&mut clock, &keys), Some(3_600));
    assert_eq!(clock.speed_factor(), 3_600);
    let mut keys = no_keys();
    keys.digit4 = true;
    assert_eq!(control_time_speed(&mut clock, &keys), Some(86_400));
    assert_eq!(clock.speed_factor(), 86_400);
    let mut keys = no_keys();
    keys.backquote = true;
    assert_eq!(control_time_speed(&mut clock, &keys), Some(0));
    assert_eq!(clock.speed_factor(), 0);
    let mut keys = no_keys();
    keys.digit1 = true;
    assert_eq!(control_time_speed(&mut clock, &keys), Some(1));
    assert_eq!(clock.speed_factor(), 1);
}

#[test]
fn no_key_leaves_the_speed() {
    let mut clock = TimeController::new();
    clock.set_speed(7);
    clock.tick(3);
    assert_eq!(control_time_speed(&mut clock, &no_keys()), None);
    assert_eq!(clock.speed_factor(), 7);
    assert_eq!(clock.scaled_delta(), 21);
    assert_eq!(clock.simulated_elapsed_micros(), 21);
}

#[test]
fn lower_digit_wins_when_several_keys_are_down() {
    let mut clock = TimeController::new();
    let keys = SpeedKeys {
        digit1: false,
        digit2: true,
        digit3: true,
        digit4: true,
        backquote: true,
    };
    assert_eq!(control_time_speed(&mut clock, &keys), Some(60));
    let keys = SpeedKeys {
        digit1: false,
        digit2: false,
        digit3: false,
        digit4: true,
        backquote: true,
    };
    assert_eq!(control_time_speed(&mut clock, &keys), Some(86_400));
}

#[test]
fn setting_the_speed_does_not_move_time() {
    let mut clock = TimeController::new();
    clock.tick(10);
    clock.set_speed(3_600);
    assert_eq!(clock.scaled_delta(), 10);
    assert_eq!(clock.simulated_elapsed_micros(), 10);
}

#[test]
fn elapsed_time_string_rounds_to_the_nearest_second() {
    let mut clock = TimeController::new();
    clock.tick(63_959_415_499_999);
    assert_eq!(clock.rounded_elapsed_secs(), 63_959_415);
    assert_eq!(
        clock.simulated_elapsed_time_string(),
        "2 years, 10 days, 06 hours, 30 minutes, 15 seconds"
    );
    clock.tick(1);
    assert_eq!(clock.rounded_elapsed_secs(), 63_959_416);
    assert_eq!(
        clock.simulated_elapsed_time_string(),
        "2 years, 10 days, 06 hours, 30 minutes, 16 seconds"
    );
}

#[test]
fn rounding_the_largest_time_does_not_overflow() {
    let mut clock = TimeController::new();
    clock.tick(u64::MAX);
    // 18_446_744_073_709.551615 seconds
    assert_eq!(clock.simulated_elapsed_secs(), 18_446_744_073_709);
    assert_eq!(clock.rounded_elapsed_secs(), 18_446_744_073_710);
}

#[test]
fn age_counts_from_birth() {
    let mut clock = TimeController::new();
    clock.tick(10_000_000);
    let age = Age::new(&clock);
    assert_eq!(age.age_micros(&clock), 0);
    clock.tick(90_500_000);
    assert_eq!(age.age_micros(&clock), 90_500_000);
    assert_eq!(age.age_seconds(&clock), 90);
    assert_eq!(age.age_minutes(&clock), 1);
    assert_eq!(age.age_hours(&clock), 0);
    assert_eq!(age.formatted_age(&clock), (0, 0, 0, 1, 31));
    assert_eq!(
        age.formatted_age_string(&clock),
        "0 years, 00 days, 00 hours, 01 minutes, 31 seconds"
    );
}

#[test]
fn age_in_every_unit() {
    let mut clock = TimeController::new();
    let age = Age::new(&clock);
    clock.set_speed(86_400);
    // 800 days of simulated time
    clock.tick(800_000_000);
    assert_eq!(age.age_seconds(&clock), 69_120_000);
    assert_eq!(age.age_minutes(&clock), 1_152_000);
    assert_eq!(age.age_hours(&clock), 19_200);
    assert_eq!(age.age_days(&clock), 800);
    assert_eq!(age.age_years(&clock), 2);
    assert_eq!(age.formatted_age(&clock), (2, 70, 0, 0, 0));
}

#[test]
fn age_is_zero_against_a_clock_that_reads_less_than_at_birth() {
    let mut late = TimeController::new();
    late.tick(5_000_000);
    let age = Age::new(&late);
    let early = TimeController::new();
    assert_eq!(age.age_micros(&early), 0);
    assert_eq!(age.age_seconds(&early), 0);
    assert_eq!(age.age_minutes(&early), 0);
    assert_eq!(age.age_hours(&early), 0);
    assert_eq!(age.age_days(&early), 0);
    assert_eq!(age.age_years(&early), 0);
    assert_eq!(age.formatted_age(&early), (0, 0, 0, 0, 0));
}

#[test]
fn age_just_under_a_unit_is_not_yet_that_unit() {
    let mut clock = TimeController::new();
    let age = Age::new(&clock);
    clock.tick(59_999_999);
    assert_eq!(age.age_seconds(&clock), 59);
    assert_eq!(age.age_minutes(&clock), 0);
    // rounded, it is a full minute
    assert_eq!(age.formatted_age(&clock), (0, 0, 0, 1, 0));
}
