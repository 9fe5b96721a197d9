use shooting::Countdown;

#[test]
fn one_shot_timer_finishes_and_stays_finished() {
    let mut t = Countdown::new(1000);
    t.tick(500);
    assert_eq!(t.elapsed_ms, 500);
    assert!(!t.finished());
    t.tick(1000);
    assert!(t.finished());
    assert!(t.just_finished());
    assert_eq!(t.elapsed_ms, 1000);
    t.tick(500);
    assert!(t.finished());
    assert!(!t.just_finished());
    assert_eq!(t.elapsed_ms, 1000);
    t.reset();
    assert!(!t.finished());
    assert_eq!(t.elapsed_ms, 0);
}

#[test]
fn zero_length_timer_finishes_on_first_tick() {
    let mut t = Countdown::new(0);
    t.tick(0);
    assert!(t.finished());
    assert!(t.just_finished());
}

#[test]
fn fire_restarts_each_period() {
    let mut t = Countdown::new(1000);
    assert!(!t.fire(999));
    assert!(t.fire(1));
    assert_eq!(t.elapsed_ms, 0);
    assert!(!t.finished());
    assert!(!t.fire(400));
    assert_eq!(t.elapsed_ms, 400);
}

#[test]
fn fixed_interval_spawn_fires_once_per_window() {
    // A two-second spawn timer ticked at 16 ms: nothing fires during the
    // first 124 ticks, exactly one spawn on the tick reaching 2000 ms, and the
    // timer is re-armed for the next two seconds.
    let mut t = Countdown::new(2000);
    let mut fired = 0;
    for _ in 0..124 {
        if t.fire(16) {
            fired += 1;
        }
    }
    assert_eq!(fired, 0);
    assert_eq!(t.elapsed_ms, 1984);
    assert!(t.fire(16));
    assert_eq!(t.elapsed_ms, 0);
    assert!(!t.finished());
    assert_eq!(t.duration_ms, 2000);
    let mut again = 0;
    for _ in 0..125 {
        if t.fire(16) {
            again += 1;
        }
    }
    assert_eq!(again, 1);
}

#[test]
fn fire_overshoot_does_not_fire_twice() {
    let mut t = Countdown::new(2000);
    assert!(t.fire(5000));
    assert!(!t.fire(10));
}

#[test]
fn rearm_changes_duration() {
    let mut t = Countdown::new(1000);
    t.tick(1000);
    t.rearm(3000);
    assert_eq!(t.duration_ms, 3000);
    assert_eq!(t.elapsed_ms, 0);
    assert!(!t.finished());
}

#[test]
fn reroll_draws_between_one_and_six_seconds() {
    let mut t = Countdown::new(4000);
    assert_eq!(t.reroll(1000), None);
    assert_eq!(t.elapsed_ms, 1000);
    let s = t.reroll(3000).unwrap();
    assert!((1..7).contains(&s));
    assert_eq!(t.duration_ms, s * 1000);
    assert_eq!(t.elapsed_ms, 0);
}
