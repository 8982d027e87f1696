use auto_shake::keys::KeyCode;
use auto_shake::policy::{ActionCommand, ActionPolicy, Button, Phase, PolicyState, Tick};
use auto_shake::sample::Rgb;
use auto_shake::signal::{Signal, Thresholds};

const BUTTON: Button = Button::MouseLeft;

fn thresholds(debounce_ticks: u32, cooldown_ms: u64, max_hold_ms: u64) -> Thresholds {
    Thresholds {
        target: Rgb { r: 255, g: 0, b: 0 },
        tolerance: 0,
        debounce_ticks,
        cooldown_ms,
        max_hold_ms,
    }
}

fn seen(now_ms: u64) -> Tick {
    Tick { found: true, now_ms }
}

fn gone(now_ms: u64) -> Tick {
    Tick { found: false, now_ms }
}

fn reading(found: bool) -> Signal {
    Signal {
        marker_found: found,
        matched: if found { 4 } else { 0 },
        total: 4,
        left: 0,
        top: 0,
        right: if found { 1 } else { 0 },
        bottom: if found { 1 } else { 0 },
        centroid_x: 0,
        centroid_y: 0,
        marker_offset: if found { -1 } else { 0 },
        fill_ppm: if found { 1_000_000 } else { 0 },
    }
}

#[test]
fn new_policy_is_idle() {
    let policy = ActionPolicy::new(BUTTON);
    assert_eq!(policy.phase(), Phase::Idle);
    assert_eq!(policy.snapshot(), PolicyState { phase: Phase::Idle, streak: 0, since_ms: 0 });
    assert_eq!(policy.target_button(), BUTTON);
}

#[test]
fn idle_policy_stays_idle_without_a_marker() {
    let t = thresholds(3, 100, 1000);
    let mut policy = ActionPolicy::new(BUTTON);
    for now in 0..5u64 {
        assert_eq!(policy.advance(&t, gone(now * 10)), ActionCommand::Nothing);
        assert_eq!(policy.snapshot(), PolicyState { phase: Phase::Idle, streak: 0, since_ms: 0 });
    }
}

#[test]
fn short_sighting_commands_nothing() {
    let t = thresholds(3, 100, 1000);
    let mut policy = ActionPolicy::new(BUTTON);
    assert_eq!(policy.advance(&t, seen(10)), ActionCommand::Nothing);
    assert_eq!(policy.snapshot(), PolicyState { phase: Phase::Armed, streak: 1, since_ms: 10 });
    assert_eq!(policy.advance(&t, seen(20)), ActionCommand::Nothing);
    assert_eq!(policy.snapshot(), PolicyState { phase: Phase::Armed, streak: 2, since_ms: 10 });
    assert_eq!(policy.advance(&t, gone(30)), ActionCommand::Nothing);
    assert_eq!(policy.snapshot(), PolicyState { phase: Phase::Idle, streak: 0, since_ms: 30 });
}

#[test]
fn confirmed_sighting_presses_once_and_releases() {
    let t = thresholds(3, 100, 1000);
    let mut policy = ActionPolicy::new(BUTTON);
    let ticks = vec![seen(10), seen(20), seen(30), seen(40), seen(50), gone(60)];
    let commands = policy.replay(&t, &ticks);
    assert_eq!(
        commands,
        vec![
            ActionCommand::Nothing,
            ActionCommand::Nothing,
            ActionCommand::Press(BUTTON),
            ActionCommand::Nothing,
            ActionCommand::Nothing,
            ActionCommand::Release(BUTTON),
        ]
    );
    assert_eq!(policy.snapshot(), PolicyState { phase: Phase::Cooldown, streak: 0, since_ms: 60 });
}

#[test]
fn replay_is_step_after_step() {
    let t = thresholds(2, 25, 35);
    let ticks = vec![
        seen(0),
        gone(10),
        seen(20),
        seen(30),
        seen(40),
        seen(65),
        seen(70),
        seen(80),
        seen(90),
        seen(100),
        gone(110),
    ];
    let mut stepped = ActionPolicy::new(BUTTON);
    let mut one_by_one = Vec::new();
    for tick in &ticks {
        one_by_one.push(stepped.advance(&t, *tick));
    }
    let mut replayed = ActionPolicy::new(BUTTON);
    let commands = replayed.replay(&t, &ticks);
    assert_eq!(commands, one_by_one);
    assert_eq!(replayed.snapshot(), stepped.snapshot());
    assert_eq!(
        commands,
        vec![
            ActionCommand::Nothing,
            ActionCommand::Nothing,
            ActionCommand::Nothing,
            ActionCommand::Press(BUTTON),
            ActionCommand::Nothing,
            ActionCommand::Release(BUTTON),
            ActionCommand::Nothing,
            ActionCommand::Nothing,
            ActionCommand::Nothing,
            ActionCommand::Nothing,
            ActionCommand::Nothing,
        ]
    );
    assert_eq!(replayed.phase(), Phase::Idle);
    let mut empty = ActionPolicy::new(BUTTON);
    assert_eq!(empty.replay(&t, &Vec::new()), Vec::<ActionCommand>::new());
    assert_eq!(empty.phase(), Phase::Idle);
}

#[test]
fn hold_ends_at_the_hold_limit() {
    let t = thresholds(1, 0, 50);
    let mut policy = ActionPolicy::new(BUTTON);
    assert_eq!(policy.advance(&t, seen(100)), ActionCommand::Press(BUTTON));
    assert_eq!(policy.snapshot(), PolicyState { phase: Phase::Acting, streak: 0, since_ms: 100 });
    assert_eq!(policy.advance(&t, seen(149)), ActionCommand::Nothing);
    assert_eq!(policy.snapshot(), PolicyState { phase: Phase::Acting, streak: 0, since_ms: 100 });
    assert_eq!(policy.advance(&t, seen(150)), ActionCommand::Release(BUTTON));
    assert_eq!(policy.snapshot(), PolicyState { phase: Phase::Cooldown, streak: 0, since_ms: 150 });
}

#[test]
fn zero_hold_limit_releases_on_the_next_tick() {
    let t = thresholds(1, 0, 0);
    let mut policy = ActionPolicy::new(BUTTON);
    assert_eq!(policy.advance(&t, seen(5)), ActionCommand::Press(BUTTON));
    assert_eq!(policy.advance(&t, seen(5)), ActionCommand::Release(BUTTON));
    assert_eq!(policy.phase(), Phase::Cooldown);
}

#[test]
fn cooldown_lasts_its_duration() {
    let t = thresholds(1, 100, 1000);
    let mut policy = ActionPolicy::new(BUTTON);
    assert_eq!(policy.advance(&t, seen(0)), ActionCommand::Press(BUTTON));
    assert_eq!(policy.advance(&t, gone(10)), ActionCommand::Release(BUTTON));
    assert_eq!(policy.advance(&t, seen(50)), ActionCommand::Nothing);
    assert_eq!(policy.phase(), Phase::Cooldown);
    assert_eq!(policy.advance(&t, seen(109)), ActionCommand::Nothing);
    assert_eq!(policy.phase(), Phase::Cooldown);
    assert_eq!(policy.advance(&t, seen(110)), ActionCommand::Nothing);
    assert_eq!(policy.snapshot(), PolicyState { phase: Phase::Idle, streak: 0, since_ms: 110 });
    assert_eq!(policy.advance(&t, seen(120)), ActionCommand::Press(BUTTON));
}

#[test]
fn clock_that_goes_back_counts_as_no_time() {
    let t = thresholds(1, 10, 10);
    let mut policy = ActionPolicy::new(BUTTON);
    assert_eq!(policy.advance(&t, seen(1000)), ActionCommand::Press(BUTTON));
    assert_eq!(policy.advance(&t, seen(500)), ActionCommand::Nothing);
    assert_eq!(policy.advance(&t, gone(400)), ActionCommand::Release(BUTTON));
    assert_eq!(policy.advance(&t, gone(300)), ActionCommand::Nothing);
    assert_eq!(policy.phase(), Phase::Cooldown);
    assert_eq!(policy.advance(&t, gone(410)), ActionCommand::Nothing);
    assert_eq!(policy.phase(), Phase::Idle);
}

#[test]
fn debounce_of_zero_counts_as_one() {
    let mut policy = ActionPolicy::new(BUTTON);
    assert_eq!(policy.advance(&thresholds(0, 0, 100), seen(7)), ActionCommand::Press(BUTTON));
    let mut policy = ActionPolicy::new(BUTTON);
    assert_eq!(policy.advance(&thresholds(1, 0, 100), seen(7)), ActionCommand::Press(BUTTON));
}

#[test]
fn debounce_shortened_while_armed_acts_at_once() {
    let mut policy = ActionPolicy::new(BUTTON);
    let long = thresholds(10, 0, 100);
    for now in 0..5u64 {
        assert_eq!(policy.advance(&long, seen(now)), ActionCommand::Nothing);
    }
    assert_eq!(policy.snapshot(), PolicyState { phase: Phase::Armed, streak: 5, since_ms: 0 });
    assert_eq!(policy.advance(&thresholds(2, 0, 100), seen(6)), ActionCommand::Press(BUTTON));
}

#[test]
fn very_long_debounce_does_not_overflow() {
    let t = thresholds(u32::MAX, 0, u64::MAX);
    let mut policy = ActionPolicy::new(BUTTON);
    for now in 0..1000u64 {
        assert_eq!(policy.advance(&t, seen(now)), ActionCommand::Nothing);
    }
    assert_eq!(policy.snapshot(), PolicyState { phase: Phase::Armed, streak: 1000, since_ms: 0 });
}

#[test]
fn step_reads_the_signal() {
    let t = thresholds(2, 0, 1000);
    let mut policy = ActionPolicy::new(Button::Key(KeyCode::Space));
    assert_eq!(policy.step(&t, &reading(true), 1), ActionCommand::Nothing);
    assert_eq!(
        policy.step(&t, &reading(true), 2),
        ActionCommand::Press(Button::Key(KeyCode::Space))
    );
    assert_eq!(
        policy.step(&t, &reading(true), 3),
        ActionCommand::Nothing
    );
    assert_eq!(
        policy.step(&t, &reading(false), 4),
        ActionCommand::Release(Button::Key(KeyCode::Space))
    );
    assert_eq!(policy.step(&t, &reading(false), 4), ActionCommand::Nothing);
    assert_eq!(policy.phase(), Phase::Idle);
}

#[test]
fn reset_releases_a_button_that_is_down() {
    let t = thresholds(2, 0, 1000);
    let mut policy = ActionPolicy::new(BUTTON);
    assert_eq!(policy.reset(), ActionCommand::Nothing);
    policy.advance(&t, seen(1));
    assert_eq!(policy.phase(), Phase::Armed);
    assert_eq!(policy.reset(), ActionCommand::Nothing);
    assert_eq!(policy.snapshot(), PolicyState { phase: Phase::Idle, streak: 0, since_ms: 0 });
    policy.advance(&t, seen(2));
    policy.advance(&t, seen(3));
    assert_eq!(policy.phase(), Phase::Acting);
    assert_eq!(policy.reset(), ActionCommand::Release(BUTTON));
    assert_eq!(policy.snapshot(), PolicyState { phase: Phase::Idle, streak: 0, since_ms: 0 });
    assert_eq!(policy.target_button(), BUTTON);
    policy.advance(&t, seen(4));
    policy.advance(&t, seen(5));
    policy.advance(&t, gone(6));
    assert_eq!(policy.phase(), Phase::Cooldown);
    assert_eq!(policy.reset(), ActionCommand::Nothing);
    assert_eq!(policy.phase(), Phase::Idle);
}

#[test]
fn presses_and_releases_alternate_over_a_long_run() {
    let t = thresholds(2, 15, 40);
    let mut policy = ActionPolicy::new(BUTTON);
    let mut ticks = Vec::new();
    for i in 0..400u64 {
        ticks.push(Tick { found: (i * 7 + i / 3) % 5 != 0, now_ms: i * 10 });
    }
    let commands = policy.replay(&t, &ticks);
    assert_eq!(commands.len(), 400);
    let mut down = false;
    let mut presses = 0;
    for cmd in &commands {
        match cmd {
            ActionCommand::Press(_) => {
                assert!(!down);
                down = true;
                presses += 1;
            }
            ActionCommand::Release(_) => {
                assert!(down);
                down = false;
            }
            ActionCommand::Hold(_) => panic!("the policy never commands a hold"),
            ActionCommand::Nothing => {}
        }
    }
    assert!(presses > 0);
    assert_eq!(down, policy.phase() == Phase::Acting);
}
