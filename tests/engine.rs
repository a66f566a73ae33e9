use scale_engine::taring::mean_of;
use scale_engine::{Calibrated, NotReadyError, Scale, ScaleFactor, Tolerance, SETTLE_WINDOW};

fn scale_with(num: i32, den: u32) -> Scale {
    Scale::new(ScaleFactor::new(num, den))
}

fn rounded_from(scale: &mut Scale, raw: i32) -> i32 {
    scale.deliver(raw);
    scale.read_rounded().unwrap()
}

#[test]
fn tiny_negative_readings_round_to_plain_zero() {
    let mut scale = scale_with(1, 10000);
    // -0.0001 and -0.4999
    assert_eq!(rounded_from(&mut scale, -1), 0);
    assert_eq!(rounded_from(&mut scale, -4999), 0);
    assert_eq!(rounded_from(&mut scale, 0), 0);
}

#[test]
fn halves_round_away_from_zero() {
    let mut scale = scale_with(1, 10000);
    assert_eq!(rounded_from(&mut scale, -5000), -1);
    assert_eq!(rounded_from(&mut scale, 5000), 1);
    assert_eq!(rounded_from(&mut scale, 4999), 0);
    assert_eq!(rounded_from(&mut scale, 15000), 2);
    assert_eq!(rounded_from(&mut scale, -15000), -2);
}

#[test]
fn calibrated_rounding_direct() {
    assert_eq!(Calibrated { numer: 5, denom: 2 }.rounded(), 3);
    assert_eq!(Calibrated { numer: -5, denom: 2 }.rounded(), -3);
    assert_eq!(Calibrated { numer: 7, denom: 3 }.rounded(), 2);
    assert_eq!(Calibrated { numer: -7, denom: 3 }.rounded(), -2);
    assert_eq!(Calibrated { numer: -1, denom: 3 }.rounded(), 0);
}

#[test]
fn calibration_is_linear_in_the_raw_sample() {
    let mut scale = scale_with(27, 10000);
    scale.tare(&[1000]);
    assert_eq!(scale.offset(), 1000);
    assert_eq!(rounded_from(&mut scale, -100000), -273);
    assert_eq!(rounded_from(&mut scale, 0), -3);
    assert_eq!(rounded_from(&mut scale, 1000), 0);
    assert_eq!(rounded_from(&mut scale, 1500), 1);
    assert_eq!(rounded_from(&mut scale, 500000), 1347);
}

#[test]
fn read_scaled_is_exact() {
    let mut scale = scale_with(27, 10000);
    scale.tare(&[1000]);
    scale.deliver(1500);
    let reading = scale.read_scaled().unwrap();
    assert_eq!(reading, Calibrated { numer: 13500, denom: 10000 });
    assert_eq!(Calibrated::from_raw(-3, 2, ScaleFactor::new(-4, 7)), Calibrated { numer: 20, denom: 7 });
}

#[test]
fn zero_factor_collapses_readings() {
    let mut scale = scale_with(0, 1);
    assert_eq!(rounded_from(&mut scale, 123456), 0);
    assert_eq!(rounded_from(&mut scale, -98765), 0);
}

#[test]
fn readings_saturate_to_i32() {
    let mut scale = scale_with(i32::MAX, 1);
    scale.tare(&[i32::MIN]);
    assert_eq!(rounded_from(&mut scale, i32::MAX), i32::MAX);
    let mut scale = scale_with(i32::MAX, 1);
    assert_eq!(rounded_from(&mut scale, i32::MIN), i32::MIN);
}

#[test]
fn tare_averages_the_samples() {
    let mut scale = scale_with(1, 1);
    scale.tare(&[100, 102, 98, 100]);
    assert_eq!(scale.offset(), 100);
    assert_eq!(scale.scaling(), ScaleFactor::new(1, 1));
    assert_eq!(rounded_from(&mut scale, 100), 0);
    assert_eq!(rounded_from(&mut scale, 150), 50);
}

#[test]
fn tare_truncates_toward_zero() {
    let mut scale = scale_with(1, 1);
    scale.tare(&[3, 4]);
    assert_eq!(scale.offset(), 3);
    scale.tare(&[-3, -4]);
    assert_eq!(scale.offset(), -3);
    scale.tare(&[7]);
    assert_eq!(scale.offset(), 7);
    scale.tare(&[i32::MAX, i32::MAX, i32::MAX]);
    assert_eq!(scale.offset(), i32::MAX);
    scale.tare(&[i32::MIN, i32::MIN]);
    assert_eq!(scale.offset(), i32::MIN);
}

#[test]
fn tare_leaves_a_waiting_sample() {
    let mut scale = scale_with(1, 1);
    scale.deliver(40);
    scale.tare(&[10, 10]);
    assert!(scale.is_ready());
    assert_eq!(scale.read_rounded(), Ok(30));
}

#[test]
fn read_when_not_ready_fails_and_consumes_nothing() {
    let mut scale = scale_with(1, 1);
    assert!(!scale.is_ready());
    assert_eq!(scale.read_rounded(), Err(NotReadyError));
    assert_eq!(scale.read_scaled(), Err(NotReadyError));
    assert_eq!(scale.read_raw(), Err(NotReadyError));
    scale.deliver(5);
    assert!(scale.is_ready());
    assert_eq!(scale.read_rounded(), Ok(5));
    assert!(!scale.is_ready());
    assert_eq!(scale.read_rounded(), Err(NotReadyError));
}

#[test]
fn a_fresh_sample_replaces_an_unread_one() {
    let mut scale = scale_with(1, 1);
    scale.deliver(5);
    scale.deliver(9);
    assert_eq!(scale.read_raw(), Ok(9));
    assert_eq!(scale.read_raw(), Err(NotReadyError));
}

#[test]
fn ten_identical_readings_settle_after_ten() {
    let scale = scale_with(1, 10);
    let samples = [500; 10];
    assert_eq!(scale.wait_stable(&samples, SETTLE_WINDOW, Tolerance::settle_default()), Some(10));
    let samples = [500; 25];
    assert_eq!(scale.wait_stable(&samples, SETTLE_WINDOW, Tolerance::settle_default()), Some(10));
}

#[test]
fn divergent_readings_delay_settling_until_the_stable_run_completes() {
    let scale = scale_with(1, 10);
    let mut samples: Vec<i32> = (0..9).map(|i| i * 10).collect();
    samples.extend([500; 10]);
    assert_eq!(scale.wait_stable(&samples, SETTLE_WINDOW, Tolerance::settle_default()), Some(19));
    assert_eq!(scale.wait_stable(&samples[..18], SETTLE_WINDOW, Tolerance::settle_default()), None);
}

#[test]
fn too_few_readings_never_settle() {
    let scale = scale_with(1, 10);
    assert_eq!(scale.wait_stable(&[500; 9], SETTLE_WINDOW, Tolerance::settle_default()), None);
    assert_eq!(scale.wait_stable(&[], SETTLE_WINDOW, Tolerance::settle_default()), None);
}

#[test]
fn readings_one_tolerance_apart_are_not_settled() {
    let scale = scale_with(1, 10);
    let mut window = scale.stability_window(2, Tolerance::settle_default());
    // 50.0 then 50.2: exactly the tolerance apart
    assert!(!window.push(Calibrated { numer: 500, denom: 10 }));
    assert!(!window.push(Calibrated { numer: 502, denom: 10 }));
    assert!(!window.is_settled());
    // 50.1 is within 0.2 of 50.2
    assert!(window.push(Calibrated { numer: 501, denom: 10 }));
    assert!(window.is_settled());
    let alternating: Vec<i32> = (0..20).map(|i| if i % 2 == 0 { 500 } else { 502 }).collect();
    assert_eq!(scale.wait_stable(&alternating, SETTLE_WINDOW, Tolerance::settle_default()), None);
}

#[test]
fn zero_tolerance_never_settles() {
    let scale = scale_with(1, 10);
    assert_eq!(scale.wait_stable(&[500; 30], SETTLE_WINDOW, Tolerance::new(0, 1)), None);
}

#[test]
fn window_uses_the_tare_offset() {
    let mut scale = scale_with(1, 1);
    scale.tare(&[1000]);
    let mut window = scale.stability_window(3, Tolerance::new(1, 1));
    for raw in [1000, 1000] {
        scale.deliver(raw);
        assert!(!window.push(scale.read_scaled().unwrap()));
    }
    scale.deliver(1000);
    let reading = scale.read_scaled().unwrap();
    assert_eq!(reading, Calibrated { numer: 0, denom: 1 });
    assert!(window.push(reading));
    scale.deliver(1002);
    assert!(!window.push(scale.read_scaled().unwrap()));
}

#[test]
fn mean_of_truncates_toward_zero() {
    assert_eq!(mean_of(&[100, 102, 98, 100]), 100);
    assert_eq!(mean_of(&[1, 2]), 1);
    assert_eq!(mean_of(&[-1, -2]), -1);
    assert_eq!(mean_of(&[-7, 2, 0]), -1);
    assert_eq!(mean_of(&[i32::MIN, i32::MAX]), 0);
}
