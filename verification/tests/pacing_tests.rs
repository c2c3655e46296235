use nate_engine::clock::clock_micros;
use nate_engine::clock::reading_micros;
use nate_engine::pacing::elapsed_since;
use nate_engine::pacing::frame_delay;
use nate_engine::pacing::frame_sleep;
use nate_engine::pacing::time_until_due;
use nate_engine::pacing::MICROS_PER_SECOND;

#[test]
fn elapsed_is_the_difference() {
    assert_eq!(elapsed_since(1_000, 1_750), 750);
    assert_eq!(elapsed_since(0, u128::MAX), u128::MAX);
    assert_eq!(elapsed_since(42, 42), 0);
}

#[test]
fn elapsed_is_zero_when_the_clock_went_back() {
    assert_eq!(elapsed_since(2_000, 1_999), 0);
    assert_eq!(elapsed_since(u128::MAX, 0), 0);
}

#[test]
fn time_until_due_is_what_is_left() {
    assert_eq!(time_until_due(1_000_000, 100_000), 900_000);
    assert_eq!(time_until_due(1_000_000, 50_000), 950_000);
    assert_eq!(time_until_due(1_000_000, 0), 1_000_000);
    assert_eq!(time_until_due(1_000_000, 999_999), 1);
}

#[test]
fn time_until_due_is_zero_once_due() {
    assert_eq!(time_until_due(1_000_000, 1_000_000), 0);
    assert_eq!(time_until_due(1_000_000, 5_000_000), 0);
    assert_eq!(time_until_due(0, 0), 0);
}

#[test]
fn frame_delay_divides_a_second() {
    assert_eq!(MICROS_PER_SECOND, 1_000_000);
    assert_eq!(frame_delay(1), 1_000_000);
    assert_eq!(frame_delay(30), 33_333);
    assert_eq!(frame_delay(60), 16_666);
    assert_eq!(frame_delay(1_000_000), 1);
    assert_eq!(frame_delay(1_000_001), 0);
    assert_eq!(frame_delay(u32::MAX), 0);
}

#[test]
fn frame_sleep_is_the_rest_of_the_period() {
    assert_eq!(frame_sleep(33_333, 0), 33_333);
    assert_eq!(frame_sleep(33_333, 3_333), 30_000);
    assert_eq!(frame_sleep(33_333, 33_332), 1);
}

#[test]
fn frame_sleep_is_zero_for_a_late_frame() {
    assert_eq!(frame_sleep(33_333, 33_333), 0);
    assert_eq!(frame_sleep(33_333, 1_000_000), 0);
    assert_eq!(frame_sleep(0, 0), 0);
    assert_eq!(frame_sleep(u32::MAX, u128::MAX), 0);
}

#[test]
fn clock_reads_the_time_since_the_epoch() {
    let first = clock_micros();
    // 2020-01-01 in microseconds since the epoch.
    assert!(first > 1_577_836_800_000_000);
    let begin = std::time::Instant::now();
    while begin.elapsed() < std::time::Duration::from_millis(5) {
        std::hint::spin_loop();
    }
    let second = clock_micros();
    assert!(second > first);
    assert!(second - first >= 4_000);
    assert!(second - first < 10_000_000);
}

#[test]
fn reading_is_the_time_since_the_epoch() {
    assert_eq!(reading_micros(Some(1_577_836_800_000_000)), 1_577_836_800_000_000);
    assert_eq!(reading_micros(Some(0)), 0);
    assert_eq!(reading_micros(Some(u128::MAX)), u128::MAX);
}

#[test]
fn reading_is_zero_before_the_epoch() {
    assert_eq!(reading_micros(None), 0);
}
