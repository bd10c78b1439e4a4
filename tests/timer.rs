use kg_g::timer::Timer;

fn create() -> Timer {
    Timer::new(500_000)
}

#[test]
fn timer_update() {
    let mut time = create();
    time.update(100_000);
    assert_eq!(time.elapsed(), 100_000);
    time.update(100_000);
    assert_eq!(time.elapsed(), 200_000);
    time.update(100_000);
    assert_eq!(time.elapsed(), 300_000);
}

#[test]
fn timer_update_over() {
    let mut time = create();
    time.update(400_000);
    assert_eq!(time.elapsed(), 400_000);
    time.update(100_000);
    assert_eq!(time.elapsed(), 500_000);
    time.update(100_000);
    assert_eq!(time.elapsed(), 0);
}

#[test]
fn timer_update_over_not_repeat() {
    let mut time = Timer::new_timeout(500_000);
    time.update(400_000);
    assert_eq!(time.elapsed(), 400_000);
    time.update(100_000);
    assert_eq!(time.elapsed(), 500_000);
    time.update(100_000);
    assert_eq!(time.elapsed(), 600_000);
    assert_eq!(time.is_just_over(), true);
    time.update(200_000);
    assert_eq!(time.elapsed(), 600_000);
    assert_eq!(time.is_just_over(), true);
}

#[test]
fn timer_update_just_over() {
    let mut time = create();
    time.update(400_000);
    assert_eq!(time.elapsed(), 400_000);
    time.update(100_000);
    assert_eq!(time.elapsed(), 500_000);
    time.update(100_000);
    assert_eq!(time.elapsed(), 0);
    assert_eq!(time.is_just_over(), true);
    time.update(200_000);
    assert_eq!(time.elapsed(), 200_000);
    assert_eq!(time.is_just_over(), false);
    time.update(400_000);
    assert_eq!(time.elapsed(), 0);
    assert_eq!(time.is_just_over(), true);
    time.update(100_000);
    assert_eq!(time.elapsed(), 100_000);
    assert_eq!(time.is_just_over(), false);
    time.update(100_000);
    assert_eq!(time.elapsed(), 200_000);
    assert_eq!(time.is_just_over(), false);
}

#[test]
fn utils_update() {
    let mut time = create();
    time.update(100_000);
    assert_eq!(time.elapsed(), 100_000);
    time.update(100_000);
    assert_eq!(time.elapsed(), 200_000);
    time.update(100_000);
    assert_eq!(time.elapsed(), 300_000);
}

#[test]
fn utils_update_over() {
    let mut time = create();
    time.update(400_000);
    assert_eq!(time.elapsed(), 400_000);
    time.update(100_000);
    assert_eq!(time.elapsed(), 500_000);
    time.update(100_000);
    assert_eq!(time.elapsed(), 0);
}

#[test]
fn utils_update_over_not_repeat() {
    let mut time = Timer::new_timeout(500_000);
    time.update(400_000);
    assert_eq!(time.elapsed(), 400_000);
    time.update(100_000);
    assert_eq!(time.elapsed(), 500_000);
    time.update(100_000);
    assert_eq!(time.elapsed(), 600_000);
    assert_eq!(time.is_just_over(), true);
    time.update(200_000);
    assert_eq!(time.elapsed(), 600_000);
    assert_eq!(time.is_just_over(), true);
}

#[test]
fn utils_update_just_over() {
    let mut time = create();
    time.update(400_000);
    assert_eq!(time.elapsed(), 400_000);
    time.update(100_000);
    assert_eq!(time.elapsed(), 500_000);
    time.update(100_000);
    assert_eq!(time.elapsed(), 0);
    assert_eq!(time.is_just_over(), true);
    time.update(200_000);
    assert_eq!(time.elapsed(), 200_000);
    assert_eq!(time.is_just_over(), false);
    time.update(400_000);
    assert_eq!(time.elapsed(), 0);
    assert_eq!(time.is_just_over(), true);
    time.update(100_000);
    assert_eq!(time.elapsed(), 100_000);
    assert_eq!(time.is_just_over(), false);
    time.update(100_000);
    assert_eq!(time.elapsed(), 200_000);
    assert_eq!(time.is_just_over(), false);
}

#[test]
fn repeating_timer_pulses_once_per_crossing() {
    let mut time = Timer::new(250_000);
    let mut pulses = 0;
    for _ in 0..100 {
        time.update(100_000);
        if time.is_just_over() {
            pulses += 1;
        }
    }
    // Every third step crosses the threshold: 100, 200, 300 > 250.
    assert_eq!(pulses, 33);
}

#[test]
fn one_shot_timer_stays_over_until_reset() {
    let mut time = Timer::new_timeout(250_000);
    time.update(300_000);
    assert!(time.is_over());
    assert!(time.is_just_over());
    for _ in 0..10 {
        time.update(1_000_000);
        assert!(time.is_over());
        assert!(time.is_just_over());
        assert_eq!(time.elapsed(), 300_000);
    }
    time.reset();
    assert!(!time.is_over());
    assert!(!time.is_just_over());
    assert_eq!(time.elapsed(), 0);
}

#[test]
fn timer_threshold_change_applies_to_next_step() {
    let mut time = Timer::new(1_000_000);
    time.update(600_000);
    time.set_threshold(500_000);
    assert!(time.is_over());
    time.update(1);
    assert!(time.is_just_over());
    assert_eq!(time.elapsed(), 0);
}
