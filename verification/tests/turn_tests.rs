use roguelike::components::{Energy, Entity, MovingEntityBundle, Position, Speed};
use roguelike::turn::{turn_begin, turn_end, TurnActor, TurnError};

fn waiting(id: u64, energy: i32, speed: i32) -> TurnActor {
    TurnActor { entity: Entity { id }, energy: Energy(energy), speed: Speed(speed), taking_turn: false }
}

fn acting(id: u64, energy: i32, speed: i32) -> TurnActor {
    TurnActor { entity: Entity { id }, energy: Energy(energy), speed: Speed(speed), taking_turn: true }
}

#[test]
fn passes_run_until_somebody_reaches_the_threshold() {
    let mut actors = vec![waiting(1, 0, 50), waiting(2, 0, 40)];
    assert_eq!(turn_begin(&mut actors), Ok(2));
    assert_eq!(actors, vec![acting(1, 100, 50), waiting(2, 80, 40)]);
}

#[test]
fn all_who_reach_the_threshold_in_one_pass_act_together() {
    let mut actors = vec![waiting(1, 0, 50), waiting(2, 10, 45), waiting(3, 0, 30)];
    assert_eq!(turn_begin(&mut actors), Ok(2));
    assert_eq!(actors, vec![acting(1, 100, 50), acting(2, 100, 45), waiting(3, 60, 30)]);
}

#[test]
fn energy_beyond_the_threshold_is_kept() {
    let mut actors = vec![waiting(1, 90, 45)];
    assert_eq!(turn_begin(&mut actors), Ok(1));
    assert_eq!(actors, vec![acting(1, 135, 45)]);
}

#[test]
fn a_pass_always_runs_before_anyone_is_looked_at() {
    let mut actors = vec![waiting(1, 150, 10), waiting(2, 0, 10)];
    assert_eq!(turn_begin(&mut actors), Ok(1));
    assert_eq!(actors, vec![acting(1, 160, 10), waiting(2, 10, 10)]);
}

#[test]
fn nothing_is_scheduled_while_somebody_acts() {
    let mut actors = vec![acting(1, 100, 50), waiting(2, 80, 40)];
    assert_eq!(turn_begin(&mut actors), Ok(0));
    assert_eq!(actors, vec![acting(1, 100, 50), waiting(2, 80, 40)]);
    let mut stalled = vec![acting(1, 100, 50), waiting(2, 80, 0)];
    assert_eq!(turn_begin(&mut stalled), Ok(0));
}

#[test]
fn an_empty_roster_schedules_nothing() {
    let mut actors: Vec<TurnActor> = Vec::new();
    assert_eq!(turn_begin(&mut actors), Ok(0));
    assert!(actors.is_empty());
}

#[test]
fn a_speed_that_never_acts_is_refused() {
    let mut actors = vec![waiting(1, 0, 50), waiting(2, 0, 0)];
    assert_eq!(turn_begin(&mut actors), Err(TurnError::InvalidSpeed));
    assert_eq!(actors, vec![waiting(1, 0, 50), waiting(2, 0, 0)]);
    let mut negative = vec![waiting(1, 0, -5)];
    assert_eq!(turn_begin(&mut negative), Err(TurnError::InvalidSpeed));
}

#[test]
fn energy_that_outgrows_the_machine_is_refused() {
    let mut actors = vec![waiting(1, i32::MAX - 10, 50), waiting(2, 0, 10)];
    assert_eq!(turn_begin(&mut actors), Err(TurnError::EnergyOverflow));
    assert_eq!(actors, vec![waiting(1, i32::MAX - 10, 50), waiting(2, 0, 10)]);
    let mut fits = vec![waiting(1, i32::MAX - 50, 50)];
    assert_eq!(turn_begin(&mut fits), Ok(1));
    assert_eq!(fits, vec![acting(1, i32::MAX, 50)]);
}

#[test]
fn a_debt_of_energy_is_worked_off_first() {
    let mut actors = vec![waiting(1, -250, 100)];
    assert_eq!(turn_begin(&mut actors), Ok(4));
    assert_eq!(actors, vec![acting(1, 150, 100)]);
    let mut deep = vec![waiting(1, i32::MIN, i32::MAX)];
    assert_eq!(turn_begin(&mut deep), Ok(2));
    assert_eq!(deep, vec![acting(1, i32::MAX - 1, i32::MAX)]);
}

#[test]
fn a_turn_ends_once_the_energy_is_spent() {
    let mut actors = vec![acting(1, 0, 50), acting(2, 120, 40), waiting(3, 60, 30), acting(4, 99, 10)];
    turn_end(&mut actors);
    assert_eq!(actors, vec![waiting(1, 0, 50), acting(2, 120, 40), waiting(3, 60, 30), waiting(4, 99, 10)]);
}

fn play(speeds: &[i32], cycles: usize) -> (u64, Vec<u64>) {
    let mut actors: Vec<TurnActor> = Vec::new();
    for (i, speed) in speeds.iter().enumerate() {
        actors.push(waiting(i as u64, 0, *speed));
    }
    let mut turns = vec![0u64; speeds.len()];
    let mut passes = 0u64;
    for _ in 0..cycles {
        passes += u64::from(turn_begin(&mut actors).unwrap());
        for (i, actor) in actors.iter_mut().enumerate() {
            if actor.taking_turn {
                turns[i] += 1;
                actor.energy = Energy(0);
            }
        }
        turn_end(&mut actors);
        assert!(actors.iter().all(|a| !a.taking_turn));
    }
    (passes, turns)
}

#[test]
fn turns_follow_speed() {
    let (passes, turns) = play(&[50, 25], 300);
    assert!(passes >= 300);
    assert_eq!(turns[0], passes / 2);
    assert_eq!(turns[1], passes / 4);
    assert_eq!(turns[0], 2 * turns[1]);
}

#[test]
fn the_faster_actor_never_falls_behind() {
    for (fast, slow) in [(45, 30), (100, 1), (60, 50), (33, 32), (7, 3)] {
        for cycles in [1usize, 2, 5, 40, 200] {
            let (passes, turns) = play(&[fast, slow], cycles);
            let quick = u64::from(100u32.div_ceil(fast as u32));
            let plain = u64::from(100u32.div_ceil(slow as u32));
            assert_eq!(turns[0], passes / quick);
            assert_eq!(turns[1], passes / plain);
            assert!(turns[0] >= turns[1]);
        }
    }
}

#[test]
fn speeds_are_checked_when_they_are_made() {
    assert_eq!(Speed::new(45), Some(Speed(45)));
    assert_eq!(Speed::new(0), None);
    assert_eq!(Speed::new(-30), None);
}

#[test]
fn a_mover_starts_at_the_origin_without_energy() {
    let mover = MovingEntityBundle::new(40);
    assert_eq!(mover.speed, Speed(40));
    assert_eq!(mover.energy, Energy(0));
    assert_eq!(mover.position, Position { x: 0, y: 0 });
    let placed = mover.with_position(Position { x: 4, y: -2 });
    assert_eq!(placed.position, Position { x: 4, y: -2 });
    assert_eq!(placed.speed, Speed(40));
    assert_eq!(placed.energy, Energy(0));
}
