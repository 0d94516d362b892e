use termgame::gameloop::{Action, Event, GameLoop, Outcome, Phase};

const MS: u128 = 1_000_000;

/// Hands `events` to the loop one by one and collects its answers.
fn run(game_loop: &mut GameLoop, events: &[Event]) -> Vec<Action> {
    events
        .iter()
        .map(|event| {
            assert!(game_loop.expects(*event));
            game_loop.step(*event)
        })
        .collect()
}

#[test]
fn interval_is_a_whole_number_of_milliseconds() {
    assert_eq!(GameLoop::new(10, 0).interval(), 100_000_000);
    assert_eq!(GameLoop::new(30, 0).interval(), 33_000_000);
    assert_eq!(GameLoop::new(60, 0).interval(), 16_000_000);
    assert_eq!(GameLoop::new(1, 0).interval(), 1_000_000_000);
    assert_eq!(GameLoop::new(255, 0).interval(), 3_000_000);
}

#[test]
fn new_loop_waits_for_the_clock() {
    let game_loop = GameLoop::new(30, 5);
    assert_eq!(game_loop.phase(), Phase::Starting);
    assert!(game_loop.expects(Event::Clock { now: 5 }));
    assert!(!game_loop.expects(Event::Advanced));
}

#[test]
fn stop_at_the_first_poll_ends_after_one_iteration() {
    let mut game_loop = GameLoop::new(10, 7);
    let actions = run(
        &mut game_loop,
        &[
            Event::Clock { now: 9 },
            Event::Polled { proceed: false },
            Event::Advanced,
            Event::Drawn { ok: true },
            Event::Clock { now: 9 + 40 * MS },
            Event::Slept,
        ],
    );
    assert_eq!(
        actions,
        vec![
            Action::Poll,
            Action::Advance { elapsed: 2 },
            Action::Draw,
            Action::ReadClock,
            Action::Sleep { nanos: 60_000_000 },
            Action::Stop { outcome: Outcome::Finished },
        ]
    );
    assert_eq!(game_loop.phase(), Phase::Stopped);
}

#[test]
fn instant_iteration_sleeps_the_whole_interval() {
    let mut game_loop = GameLoop::new(10, 0);
    let actions = run(
        &mut game_loop,
        &[
            Event::Clock { now: 0 },
            Event::Polled { proceed: true },
            Event::Advanced,
            Event::Drawn { ok: true },
            Event::Clock { now: 0 },
        ],
    );
    assert_eq!(actions[4], Action::Sleep { nanos: 100_000_000 });
    assert_eq!(game_loop.phase(), Phase::Sleeping { proceed: true });
}

#[test]
fn late_iteration_does_not_sleep() {
    for cost in [100 * MS, 100 * MS + 1, 250 * MS] {
        let mut game_loop = GameLoop::new(10, 0);
        let actions = run(
            &mut game_loop,
            &[
                Event::Clock { now: 1000 },
                Event::Polled { proceed: true },
                Event::Advanced,
                Event::Drawn { ok: true },
                Event::Clock { now: 1000 + cost },
            ],
        );
        assert_eq!(actions[4], Action::ReadClock);
        assert_eq!(game_loop.phase(), Phase::Starting);
    }
}

#[test]
fn iteration_just_short_of_the_interval_sleeps_the_rest() {
    let mut game_loop = GameLoop::new(10, 0);
    let actions = run(
        &mut game_loop,
        &[
            Event::Clock { now: 0 },
            Event::Polled { proceed: true },
            Event::Advanced,
            Event::Drawn { ok: true },
            Event::Clock { now: 100 * MS - 1 },
        ],
    );
    assert_eq!(actions[4], Action::Sleep { nanos: 1 });
}

#[test]
fn late_last_iteration_stops_without_sleep() {
    let mut game_loop = GameLoop::new(10, 0);
    let actions = run(
        &mut game_loop,
        &[
            Event::Clock { now: 0 },
            Event::Polled { proceed: false },
            Event::Advanced,
            Event::Drawn { ok: true },
            Event::Clock { now: 300 * MS },
        ],
    );
    assert_eq!(actions[4], Action::Stop { outcome: Outcome::Finished });
    assert_eq!(game_loop.phase(), Phase::Stopped);
}

#[test]
fn elapsed_is_the_time_between_iteration_starts() {
    let mut game_loop = GameLoop::new(30, 100);
    let first = run(
        &mut game_loop,
        &[
            Event::Clock { now: 150 },
            Event::Polled { proceed: true },
            Event::Advanced,
            Event::Drawn { ok: true },
            Event::Clock { now: 150 + 3 * MS },
            Event::Slept,
        ],
    );
    assert_eq!(first[1], Action::Advance { elapsed: 50 });
    assert_eq!(first[4], Action::Sleep { nanos: 30_000_000 });
    assert_eq!(first[5], Action::ReadClock);
    let second = run(
        &mut game_loop,
        &[Event::Clock { now: 150 + 34 * MS }, Event::Polled { proceed: true }],
    );
    assert_eq!(second, vec![Action::Poll, Action::Advance { elapsed: 34 * MS }]);
}

#[test]
fn late_iteration_is_not_made_up_for() {
    let mut game_loop = GameLoop::new(10, 0);
    run(
        &mut game_loop,
        &[
            Event::Clock { now: 0 },
            Event::Polled { proceed: true },
            Event::Advanced,
            Event::Drawn { ok: true },
            Event::Clock { now: 450 * MS },
        ],
    );
    let next = run(
        &mut game_loop,
        &[
            Event::Clock { now: 451 * MS },
            Event::Polled { proceed: true },
            Event::Advanced,
            Event::Drawn { ok: true },
            Event::Clock { now: 461 * MS },
        ],
    );
    assert_eq!(next[1], Action::Advance { elapsed: 451 * MS });
    assert_eq!(next[4], Action::Sleep { nanos: 90_000_000 });
}

#[test]
fn failed_draw_stops_at_once() {
    for proceed in [true, false] {
        let mut game_loop = GameLoop::new(30, 0);
        let actions = run(
            &mut game_loop,
            &[
                Event::Clock { now: 10 },
                Event::Polled { proceed },
                Event::Advanced,
                Event::Drawn { ok: false },
            ],
        );
        assert_eq!(actions[3], Action::Stop { outcome: Outcome::DrawFailed });
        assert_eq!(game_loop.phase(), Phase::Stopped);
    }
}

#[test]
fn stopped_loop_expects_nothing() {
    let mut game_loop = GameLoop::new(30, 0);
    run(
        &mut game_loop,
        &[
            Event::Clock { now: 10 },
            Event::Polled { proceed: true },
            Event::Advanced,
            Event::Drawn { ok: false },
        ],
    );
    for event in [
        Event::Clock { now: 20 },
        Event::Polled { proceed: true },
        Event::Advanced,
        Event::Drawn { ok: true },
        Event::Slept,
    ] {
        assert!(!game_loop.expects(event));
    }
}

#[test]
fn events_are_expected_in_the_order_of_the_phases() {
    let mut game_loop = GameLoop::new(30, 0);
    let order = [
        Event::Clock { now: 0 },
        Event::Polled { proceed: true },
        Event::Advanced,
        Event::Drawn { ok: true },
        Event::Clock { now: 1 },
        Event::Slept,
    ];
    let others = [
        Event::Clock { now: 2 },
        Event::Polled { proceed: false },
        Event::Advanced,
        Event::Drawn { ok: false },
        Event::Slept,
    ];
    for event in order {
        for other in others {
            let same_kind = std::mem::discriminant(&other) == std::mem::discriminant(&event);
            assert_eq!(game_loop.expects(other), same_kind);
        }
        game_loop.step(event);
    }
    assert_eq!(game_loop.phase(), Phase::Starting);
}

#[test]
fn clock_must_not_run_backwards() {
    let mut game_loop = GameLoop::new(30, 100);
    assert!(!game_loop.expects(Event::Clock { now: 99 }));
    assert!(game_loop.expects(Event::Clock { now: 100 }));
    run(
        &mut game_loop,
        &[
            Event::Clock { now: 200 },
            Event::Polled { proceed: true },
            Event::Advanced,
            Event::Drawn { ok: true },
        ],
    );
    assert!(!game_loop.expects(Event::Clock { now: 199 }));
    assert!(game_loop.expects(Event::Clock { now: 200 }));
}

#[test]
fn phases_follow_each_other() {
    let mut game_loop = GameLoop::new(20, 0);
    game_loop.step(Event::Clock { now: 4 });
    assert_eq!(game_loop.phase(), Phase::Polling { elapsed: 4 });
    game_loop.step(Event::Polled { proceed: true });
    assert_eq!(game_loop.phase(), Phase::Advancing { proceed: true });
    game_loop.step(Event::Advanced);
    assert_eq!(game_loop.phase(), Phase::Drawing { proceed: true });
    game_loop.step(Event::Drawn { ok: true });
    assert_eq!(game_loop.phase(), Phase::Ending { proceed: true });
    game_loop.step(Event::Clock { now: 5 });
    assert_eq!(game_loop.phase(), Phase::Sleeping { proceed: true });
    game_loop.step(Event::Slept);
    assert_eq!(game_loop.phase(), Phase::Starting);
}

#[test]
fn clock_readings_may_be_huge() {
    let mut game_loop = GameLoop::new(10, u128::MAX - 10);
    let actions = run(
        &mut game_loop,
        &[
            Event::Clock { now: u128::MAX - 4 },
            Event::Polled { proceed: false },
            Event::Advanced,
            Event::Drawn { ok: true },
            Event::Clock { now: u128::MAX },
        ],
    );
    assert_eq!(actions[1], Action::Advance { elapsed: 6 });
    assert_eq!(actions[4], Action::Sleep { nanos: 100_000_000 - 4 });
}
