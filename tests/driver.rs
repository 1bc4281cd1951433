use game_of_life::driver::{poll_timeout, Command, Driver, TICK_PERIOD_MS};

#[test]
fn keys_map_to_commands() {
    let mut d = Driver::new();
    assert!(!d.auto);
    assert_eq!(d.on_key('a'), Command::Idle);
    assert!(d.auto);
    assert_eq!(d.on_key('s'), Command::Step);
    assert!(d.auto);
    assert_eq!(d.on_key('e'), Command::Idle);
    assert!(!d.auto);
    d.on_key('a');
    assert_eq!(d.on_key('r'), Command::Randomize);
    assert!(!d.auto);
    assert_eq!(d.on_key('x'), Command::Idle);
    assert!(!d.auto);
    assert_eq!(d.on_key('q'), Command::Quit);
}

#[test]
fn timer_steps_only_in_auto() {
    let mut d = Driver::new();
    let t = d.on_timer(250, TICK_PERIOD_MS);
    assert!(t.restart && !t.step);
    d.on_key('a');
    let t = d.on_timer(200, TICK_PERIOD_MS);
    assert!(t.restart && t.step);
    let t = d.on_timer(199, TICK_PERIOD_MS);
    assert!(!t.restart && !t.step);
}

#[test]
fn timeout_is_what_is_left_of_the_period() {
    assert_eq!(poll_timeout(200, 0), 200);
    assert_eq!(poll_timeout(200, 150), 50);
    assert_eq!(poll_timeout(200, 200), 0);
    assert_eq!(poll_timeout(200, 500), 0);
}
