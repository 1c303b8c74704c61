use graph_renderer::animation::{ease_out_sine, Animation};
use graph_renderer::utils::UNIT;

#[test]
fn value_is_start_state_while_delay_is_pending() {
    // Starts at 1000, waits 300: nothing moves before 1300.
    for now in [0u64, 999, 1000, 1299] {
        let animation = Animation::new(now, 1000, 200, 300, 7, 90);
        assert_eq!(animation.get_current(), 7);
        assert!(!animation.is_completed());
    }
}

#[test]
fn value_is_end_state_after_the_duration() {
    for now in [1501u64, 1502, 5000, u64::MAX] {
        let animation = Animation::new(now, 1000, 200, 300, 7, 90);
        assert_eq!(animation.get_current(), 90);
        assert!(animation.is_completed());
    }
}

#[test]
fn value_at_the_ends_of_the_run() {
    let first = Animation::new(1300, 1000, 200, 300, 7, 90);
    assert_eq!(first.get_current(), 7);
    let last = Animation::new(1500, 1000, 200, 300, 7, 90);
    assert_eq!(last.get_current(), 90);
    assert!(!last.is_completed());
}

#[test]
fn ease_out_sine_follows_the_curve() {
    assert_eq!(ease_out_sine(0, 200), 0);
    assert_eq!(ease_out_sine(50, 200), 25137);
    assert_eq!(ease_out_sine(100, 200), 46260);
    assert_eq!(ease_out_sine(150, 200), 60494);
    assert_eq!(ease_out_sine(200, 200), UNIT);
    // The curve depends on the ratio of the two times alone.
    assert_eq!(ease_out_sine(250, 500), 46260);
}

#[test]
fn ease_out_sine_is_close_to_the_sine() {
    for t in 0..=1000u32 {
        let eased = ease_out_sine(t, 1000) as f64 / UNIT as f64;
        let sine = (t as f64 / 1000.0 * std::f64::consts::FRAC_PI_2).sin();
        assert!((eased - sine).abs() < 0.002, "t = {t}: {eased} vs {sine}");
    }
}

#[test]
fn rising_animation_never_falls_and_never_overshoots() {
    let mut last = 100;
    for now in 0..=400u64 {
        let value = Animation::new(now, 50, 200, 25, 100, 300).get_current();
        assert!(value >= last);
        assert!((100..=300).contains(&value));
        last = value;
    }
    assert_eq!(last, 300);
}

#[test]
fn animation_values_in_between() {
    assert_eq!(Animation::new(50, 0, 200, 0, 0, UNIT).get_current(), 25137);
    assert_eq!(Animation::new(100, 0, 200, 0, 100, 300).get_current(), 241);
    assert_eq!(Animation::new(150, 0, 200, 0, 100, 300).get_current(), 284);
}

#[test]
fn falling_animation_moves_towards_its_end() {
    assert_eq!(Animation::new(0, 0, 200, 0, 1000, 0).get_current(), 1000);
    assert_eq!(Animation::new(50, 0, 200, 0, 1000, 0).get_current(), 617);
    assert_eq!(Animation::new(100, 0, 200, 0, 1000, 0).get_current(), 295);
    assert_eq!(Animation::new(200, 0, 200, 0, 1000, 0).get_current(), 0);
}

#[test]
fn animation_without_duration_is_at_its_end_when_it_starts() {
    let animation = Animation::new(10, 10, 0, 0, 3, 9);
    assert_eq!(animation.get_current(), 9);
    assert!(!animation.is_completed());
    assert_eq!(Animation::new(9, 10, 0, 0, 3, 9).get_current(), 3);
    assert!(Animation::new(11, 10, 0, 0, 3, 9).is_completed());
}

#[test]
fn evaluating_twice_gives_the_same_value() {
    let animation = Animation::new(77, 0, 200, 0, 0, UNIT);
    assert_eq!(animation.get_current(), animation.get_current());
}
