use raycaster::lighting::{
    Torch, TorchState, FALL_STEP, HIGH_MAX, HIGH_MIN, HOLD_MAX, HOLD_MIN, LOW_AGAIN_MIN, LOW_MAX,
    LOW_MIN, PAUSE_MAX, PAUSE_MIN, RISE_STEP,
};

fn torch(state: TorchState, intensity: i64) -> Torch {
    Torch {
        intensity,
        flicker_r_low: 57000,
        flicker_r_high: 63000,
        flicker_r_hold: 10000,
        flicker_r_pause: 5000,
        state,
        timer: 100,
    }
}

#[test]
fn a_rising_torch_gains_a_step() {
    let mut t = torch(TorchState::Rising, 60000);
    t.advance(123, 7);
    assert_eq!(t, Torch { intensity: 60000 + RISE_STEP, ..torch(TorchState::Rising, 60000) });
    let mut at = torch(TorchState::Rising, 63000);
    at.advance(123, 7);
    assert_eq!(at.state, TorchState::Rising);
    assert_eq!(at.intensity, 63328);
}

#[test]
fn a_rising_torch_above_its_bound_holds() {
    let mut t = torch(TorchState::Rising, 63001);
    assert!(t.is_turning(0));
    t.advance(123, 7777);
    assert_eq!(
        t,
        Torch {
            state: TorchState::Hold,
            flicker_r_hold: 7777,
            timer: 123,
            ..torch(TorchState::Rising, 63001)
        }
    );
}

#[test]
fn a_held_torch_waits_and_then_falls() {
    let mut t = torch(TorchState::Hold, 63001);
    t.advance(10100, 9);
    assert_eq!(t, torch(TorchState::Hold, 63001));
    assert!(!t.is_turning(10100));
    t.advance(10101, 58000);
    assert_eq!(
        t,
        Torch { state: TorchState::Falling, flicker_r_low: 58000, ..torch(TorchState::Hold, 63001) }
    );
}

#[test]
fn a_falling_torch_loses_a_step() {
    let mut t = torch(TorchState::Falling, 57000);
    t.advance(5, 9);
    assert_eq!(t, Torch { intensity: 57000 - FALL_STEP, ..torch(TorchState::Falling, 57000) });
}

#[test]
fn a_falling_torch_below_its_bound_pauses() {
    let mut t = torch(TorchState::Falling, 56999);
    t.advance(55, 4000);
    assert_eq!(
        t,
        Torch {
            state: TorchState::Pause,
            flicker_r_pause: 4000,
            timer: 55,
            ..torch(TorchState::Falling, 56999)
        }
    );
}

#[test]
fn a_paused_torch_waits_and_then_rises() {
    let mut t = torch(TorchState::Pause, 56999);
    t.advance(5100, 9);
    assert_eq!(t, torch(TorchState::Pause, 56999));
    t.advance(5101, 64000);
    assert_eq!(
        t,
        Torch { state: TorchState::Rising, flicker_r_high: 64000, ..torch(TorchState::Pause, 56999) }
    );
}

#[test]
fn each_turn_fires_once() {
    // a full round, with the bounds set so that each state lasts
    let mut t = torch(TorchState::Rising, 62900);
    let mut turns = vec![];
    let mut time = 0;
    for _ in 0..400 {
        let before = t.state;
        let draw = match t.state {
            TorchState::Rising => 3000,
            TorchState::Hold => 57000,
            TorchState::Falling => 3000,
            TorchState::Pause => 63000,
        };
        t.advance(time, draw);
        if t.state != before {
            turns.push((before, t.state));
        }
        time += 1092;
    }
    assert_eq!(
        &turns[..4],
        &[
            (TorchState::Rising, TorchState::Hold),
            (TorchState::Hold, TorchState::Falling),
            (TorchState::Falling, TorchState::Pause),
            (TorchState::Pause, TorchState::Rising),
        ]
    );
    for pair in turns.windows(2) {
        assert_eq!(pair[0].1, pair[1].0);
    }
}

fn within_bounds(t: &Torch) -> bool {
    LOW_MIN - FALL_STEP <= t.intensity
        && t.intensity <= HIGH_MAX + RISE_STEP
        && LOW_MIN <= t.flicker_r_low
        && t.flicker_r_low < LOW_MAX
        && HIGH_MIN <= t.flicker_r_high
        && t.flicker_r_high < HIGH_MAX
}

#[test]
fn intensity_stays_within_its_bounds_for_any_draws() {
    // the extreme draws of each range, in turn
    let mut t = Torch::starting(LOW_MIN, HIGH_MAX - 1, 0, 0, LOW_MIN);
    let mut time: i64 = 0;
    let mut seen = [false; 4];
    for round in 0..200_000 {
        let low = round % 2 == 0;
        let draw = match t.state {
            TorchState::Rising => if low { HOLD_MIN } else { HOLD_MAX - 1 },
            TorchState::Hold => if low { LOW_AGAIN_MIN } else { LOW_MAX - 1 },
            TorchState::Falling => if low { PAUSE_MIN } else { PAUSE_MAX - 1 },
            TorchState::Pause => if low { HIGH_MIN } else { HIGH_MAX - 1 },
        };
        t.advance(time, draw);
        assert!(within_bounds(&t));
        seen[match t.state {
            TorchState::Rising => 0,
            TorchState::Hold => 1,
            TorchState::Falling => 2,
            TorchState::Pause => 3,
        }] = true;
        time += 1092;
    }
    assert_eq!(seen, [true; 4]);
}

#[test]
fn a_torch_updated_at_random_stays_within_its_bounds() {
    let mut t = Torch::default();
    assert!(within_bounds(&t));
    assert_eq!(t.state, TorchState::Rising);
    assert_eq!(t.timer, 0);
    let mut time: i64 = 0;
    let mut holds = vec![];
    for _ in 0..100_000 {
        let before = t;
        t.update_intensity(time);
        assert!(within_bounds(&t));
        if before.state == TorchState::Rising && t.state == TorchState::Hold {
            assert!(HOLD_MIN <= t.flicker_r_hold && t.flicker_r_hold < HOLD_MAX);
            holds.push(t.flicker_r_hold);
        }
        if before.state == TorchState::Hold && t.state == TorchState::Falling {
            assert!(LOW_AGAIN_MIN <= t.flicker_r_low && t.flicker_r_low < LOW_MAX);
        }
        if before.state == TorchState::Falling && t.state == TorchState::Pause {
            assert!(PAUSE_MIN <= t.flicker_r_pause && t.flicker_r_pause < PAUSE_MAX);
        }
        if before.state == TorchState::Pause && t.state == TorchState::Rising {
            assert!(HIGH_MIN <= t.flicker_r_high && t.flicker_r_high < HIGH_MAX);
        }
        time += 1092;
    }
    // the draws differ from one another: they are not the bound handed back
    assert!(holds.len() > 10);
    assert!(holds.iter().any(|h| *h != holds[0]));
}

#[test]
fn torches_start_within_their_bounds_and_differ() {
    let torches: Vec<Torch> = (0..50).map(|_| Torch::default()).collect();
    for t in &torches {
        assert!(within_bounds(t));
        assert!(LOW_MIN <= t.intensity && t.intensity < LOW_MAX);
    }
    assert!(torches.iter().any(|t| t.intensity != torches[0].intensity));
}
