use auto_heater::config::Config;
use auto_heater::heatman::should_be_on;
use auto_heater::pc::LockStatus;
use auto_heater::reading::{Reading, Temperature};

fn policy_degrees(value: f32) -> Temperature {
    Temperature::from_bits(value.to_bits())
}

fn policy_config(force: bool, target: f32, co2_target: Option<i32>) -> Config {
    Config { master_switch: true, force, target_temp: policy_degrees(target), co2_target }
}

fn policy_reading(temperature: f32, co2: i32) -> Reading {
    Reading { temperature: policy_degrees(temperature), co2 }
}

#[test]
fn cold_room_with_stale_air_and_unlocked_computer_heats() {
    let c = policy_config(false, 18.0, Some(500));
    assert!(should_be_on(&c, &policy_reading(17.0, 520), true, LockStatus::Unlocked));
}

#[test]
fn locked_computer_keeps_heater_off() {
    let c = policy_config(false, 18.0, Some(500));
    assert!(!should_be_on(&c, &policy_reading(17.0, 520), true, LockStatus::Locked));
}

#[test]
fn force_heats_a_warm_room_with_the_computer_off() {
    let c = policy_config(true, 18.0, Some(500));
    assert!(should_be_on(&c, &policy_reading(30.0, 0), false, LockStatus::Unlocked));
    assert!(should_be_on(&c, &policy_reading(30.0, 0), false, LockStatus::Locked));
    assert!(should_be_on(&c, &policy_reading(30.0, 0), false, LockStatus::Unknown));
}

#[test]
fn without_co2_target_an_unknown_lock_status_heats() {
    let c = policy_config(false, 18.0, None);
    assert!(should_be_on(&c, &policy_reading(10.0, 0), true, LockStatus::Unknown));
}

#[test]
fn room_at_target_is_not_heated() {
    let c = policy_config(false, 18.0, None);
    assert!(!should_be_on(&c, &policy_reading(18.0, 0), true, LockStatus::Unlocked));
    assert!(!should_be_on(&c, &policy_reading(18.5, 0), true, LockStatus::Unlocked));
    assert!(should_be_on(&c, &policy_reading(17.99, 0), true, LockStatus::Unlocked));
}

#[test]
fn co2_at_target_is_enough() {
    let c = policy_config(false, 18.0, Some(500));
    assert!(should_be_on(&c, &policy_reading(17.0, 500), true, LockStatus::Unlocked));
    assert!(!should_be_on(&c, &policy_reading(17.0, 499), true, LockStatus::Unlocked));
}

#[test]
fn computer_off_keeps_heater_off() {
    let c = policy_config(false, 18.0, None);
    assert!(!should_be_on(&c, &policy_reading(10.0, 900), false, LockStatus::Unlocked));
}

#[test]
fn temperature_that_is_no_number_keeps_heater_off() {
    let c = policy_config(false, 18.0, None);
    assert!(!should_be_on(&c, &policy_reading(f32::NAN, 900), true, LockStatus::Unlocked));
    let no_target = policy_config(false, f32::NAN, None);
    assert!(!should_be_on(&no_target, &policy_reading(10.0, 900), true, LockStatus::Unlocked));
}

#[test]
fn master_switch_has_no_say_in_the_policy() {
    let mut c = policy_config(false, 18.0, Some(500));
    c.master_switch = false;
    assert!(should_be_on(&c, &policy_reading(17.0, 520), true, LockStatus::Unlocked));
}

#[test]
fn policy_agrees_with_its_formula_on_a_table() {
    let temperatures = [-5.0f32, 0.0, 17.0, 17.999, 18.0, 18.001, 30.0];
    let targets = [0.0f32, 18.0, 21.5];
    let co2s = [0, 499, 500, 501, 2000];
    let co2_targets = [None, Some(0), Some(500), Some(1500)];
    let locks = [LockStatus::Locked, LockStatus::Unlocked, LockStatus::Unknown];
    let mut cases = 0;
    for &force in &[false, true] {
        for &target in &targets {
            for &co2_target in &co2_targets {
                for &temperature in &temperatures {
                    for &co2 in &co2s {
                        for &powered_on in &[false, true] {
                            for &lock in &locks {
                                let c = policy_config(force, target, co2_target);
                                let r = policy_reading(temperature, co2);
                                let expected = force
                                    || (temperature < target
                                        && co2_target.map_or(true, |t| co2 >= t)
                                        && powered_on
                                        && lock != LockStatus::Locked);
                                assert_eq!(should_be_on(&c, &r, powered_on, lock), expected);
                                if force {
                                    assert!(should_be_on(&c, &r, powered_on, lock));
                                }
                                cases += 1;
                            }
                        }
                    }
                }
            }
        }
    }
    assert_eq!(cases, 2 * 3 * 4 * 7 * 5 * 2 * 3);
}

#[test]
fn unknown_and_unlocked_always_agree() {
    for &force in &[false, true] {
        for &temperature in &[10.0f32, 18.0, 25.0] {
            for &co2 in &[0, 500, 900] {
                for &powered_on in &[false, true] {
                    for &co2_target in &[None, Some(500)] {
                        let c = policy_config(force, 18.0, co2_target);
                        let r = policy_reading(temperature, co2);
                        assert_eq!(
                            should_be_on(&c, &r, powered_on, LockStatus::Unknown),
                            should_be_on(&c, &r, powered_on, LockStatus::Unlocked)
                        );
                    }
                }
            }
        }
    }
}
