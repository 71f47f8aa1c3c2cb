use bracket_random::prelude::RandomNumberGenerator;
use roguelike::combat::{
    attack_message, combat, death_message, resolve_attack, track_dead, Attack, Attacker, Damageable,
    Dice, DiceError, Health,
};
use roguelike::components::{Entity, Position};
use roguelike::events::AttackEvent;
use roguelike::grid::{GridIndex, Placed};
use roguelike::log::GameLog;
use roguelike::text::decimal_string;

fn dice(count: i32, sides: i32, modifier: i32) -> Dice {
    match Dice::new(count, sides, modifier) {
        Ok(dice) => dice,
        Err(_) => panic!("the dice of this test are well formed"),
    }
}

fn attacker(id: u64, name: &str, dice: Dice) -> Attacker {
    Attacker { entity: Entity { id }, name: name.to_string(), attack: Attack::new(dice) }
}

fn victim(id: u64, name: Option<&str>, hit_points: u32) -> Damageable {
    Damageable { entity: Entity { id }, name: name.map(|n| n.to_string()), health: Health::new(hit_points) }
}

fn lines(log: &GameLog) -> Vec<String> {
    log.entries().clone()
}

#[test]
fn health_starts_full() {
    let health = Health::new(20);
    assert_eq!(health.current, 20);
    assert_eq!(health.max, 20);
    assert!(!health.is_dead());
}

#[test]
fn damage_is_taken_from_the_hit_points() {
    let mut health = Health::new(10);
    health.take_damage(6);
    assert_eq!(health.current, 4);
    assert_eq!(health.max, 10);
    assert!(!health.is_dead());
}

#[test]
fn damage_stops_at_zero() {
    let mut health = Health::new(4);
    health.take_damage(6);
    assert_eq!(health.current, 0);
    assert!(health.is_dead());
    let mut other = Health::new(7);
    other.take_damage(u32::MAX);
    assert_eq!(other.current, 0);
}

#[test]
fn hit_points_fall_by_the_smaller_of_damage_and_what_is_left() {
    for start in 0u32..12 {
        for damage in 0u32..15 {
            let mut health = Health::new(start);
            health.take_damage(damage);
            assert_eq!(start - health.current, damage.min(start));
            assert!(health.current <= start);
        }
    }
}

#[test]
fn negative_damage_takes_nothing() {
    let mut health = Health::new(10);
    health.take_damage(-3);
    assert_eq!(health.current, 10);
    health.take_damage(-1i64);
    assert_eq!(health.current, 10);
}

#[test]
fn damage_of_any_integer_type_counts() {
    let mut health = Health::new(100);
    health.take_damage(5u8);
    health.take_damage(5u64);
    health.take_damage(5i16);
    health.lose(5);
    assert_eq!(health.current, 80);
}

#[test]
fn healing_stops_at_the_maximum() {
    let mut health = Health { current: 3, max: 10 };
    health.heal(4);
    assert_eq!(health.current, 7);
    health.heal(8);
    assert_eq!(health.current, 10);
    health.heal(u32::MAX);
    assert_eq!(health.current, 10);
    assert_eq!(health.max, 10);
}

#[test]
fn dice_need_a_side() {
    assert_eq!(Dice::new(1, 0, 0).err(), Some(DiceError::NoSides));
    assert_eq!(Dice::new(0, 0, 3).err(), Some(DiceError::NoSides));
    assert_eq!(Dice::new(2, -6, 0).err(), Some(DiceError::NoSides));
}

#[test]
fn dice_have_to_fit() {
    assert_eq!(Dice::new(2, i32::MAX, 0).err(), Some(DiceError::TooLarge));
    assert_eq!(Dice::new(1, i32::MAX, 0).err(), Some(DiceError::TooLarge));
    assert_eq!(Dice::new(65536, 65536, 0).err(), Some(DiceError::TooLarge));
    assert_eq!(Dice::new(1, 6, i32::MAX).err(), Some(DiceError::TooLarge));
    assert!(Dice::new(1, 6, i32::MAX - 6).is_ok());
    assert!(Dice::new(0, i32::MAX, i32::MAX).is_ok());
}

#[test]
fn dice_keep_their_descriptor() {
    let dice = dice(2, 6, -1);
    assert_eq!(dice.dice_count(), 2);
    assert_eq!(dice.die_sides(), 6);
    assert_eq!(dice.flat_modifier(), -1);
}

#[test]
fn damage_is_total_plus_modifier_floored_at_zero() {
    let dice = dice(2, 6, -5);
    assert_eq!(dice.damage_for(2), 0);
    assert_eq!(dice.damage_for(5), 0);
    assert_eq!(dice.damage_for(6), 1);
    assert_eq!(dice.damage_for(12), 7);
    let plus = self::dice(1, 4, 3);
    assert_eq!(plus.damage_for(1), 4);
    assert_eq!(plus.damage_for(4), 7);
}

#[test]
fn rolls_stay_between_the_lowest_and_the_highest_total() {
    let mut rng = RandomNumberGenerator::seeded(7);
    let dice = dice(2, 6, 1);
    let mut seen_low = i32::MAX;
    let mut seen_high = i32::MIN;
    for _ in 0..2000 {
        let damage = dice.roll(&mut rng);
        assert!((3..=13).contains(&damage));
        seen_low = seen_low.min(damage);
        seen_high = seen_high.max(damage);
    }
    assert_eq!(seen_low, 3);
    assert_eq!(seen_high, 13);
}

#[test]
fn rolls_are_never_negative() {
    let mut rng = RandomNumberGenerator::seeded(11);
    let dice = dice(3, 4, -8);
    for _ in 0..2000 {
        let damage = dice.roll(&mut rng);
        assert!((0..=4).contains(&damage));
    }
}

#[test]
fn rolls_are_zero_when_the_best_total_is_not_positive() {
    let mut rng = RandomNumberGenerator::seeded(3);
    let even = dice(2, 6, -12);
    let below = dice(1, 4, -9);
    for _ in 0..500 {
        assert_eq!(even.roll(&mut rng), 0);
        assert_eq!(below.roll(&mut rng), 0);
    }
}

#[test]
fn without_dice_the_modifier_is_the_damage() {
    let mut rng = RandomNumberGenerator::seeded(5);
    assert_eq!(dice(0, 6, 6).roll(&mut rng), 6);
    assert_eq!(dice(0, 6, -6).roll(&mut rng), 0);
    assert_eq!(dice(-2, 6, 3).roll(&mut rng), 3);
}

#[test]
fn numbers_are_written_in_decimal() {
    assert_eq!(decimal_string(0), "0");
    assert_eq!(decimal_string(7), "7");
    assert_eq!(decimal_string(10), "10");
    assert_eq!(decimal_string(909), "909");
    assert_eq!(decimal_string(u32::MAX), "4294967295");
}

#[test]
fn messages_read_as_the_log_shows_them() {
    assert_eq!(attack_message("Player", "Goblin", 6), "Player attacks Goblin for 6 damage");
    assert_eq!(attack_message("Orc", "Unknown", 0), "Orc attacks Unknown for 0 damage");
    assert_eq!(death_message("Goblin"), "Goblin died");
}

#[test]
fn an_attack_with_a_known_roll_is_resolved_exactly() {
    let mut log = GameLog::new();
    let attackers = vec![attacker(1, "Player", dice(1, 6, 0))];
    let mut victims = vec![victim(2, Some("Goblin"), 10), victim(3, None, 5)];
    let hit = AttackEvent { attacker: Entity { id: 1 }, target: Entity { id: 3 } };
    resolve_attack(&mut log, &hit, &attackers, &mut victims, 4);
    assert_eq!(victims[0].health.current, 10);
    assert_eq!(victims[1].health.current, 1);
    assert_eq!(victims[1].name, None);
    assert_eq!(lines(&log), vec!["Player attacks Unknown for 4 damage".to_string()]);
}

#[test]
fn two_attacks_of_six_kill_a_monster_of_ten() {
    let mut rng = RandomNumberGenerator::seeded(1);
    let mut log = GameLog::new();
    let player = Entity { id: 1 };
    let goblin = Entity { id: 2 };
    let attackers = vec![attacker(1, "Player", dice(0, 1, 6))];
    let mut victims = vec![victim(2, Some("Goblin"), 10)];
    let events = vec![AttackEvent { attacker: player, target: goblin }];

    combat(&mut log, &events, &attackers, &mut victims, &mut rng);
    assert_eq!(victims[0].health.current, 4);
    assert!(!victims[0].health.is_dead());
    assert_eq!(track_dead(&mut log, &victims), Vec::<Entity>::new());

    combat(&mut log, &events, &attackers, &mut victims, &mut rng);
    assert_eq!(victims[0].health.current, 0);
    assert!(victims[0].health.is_dead());
    let dead = track_dead(&mut log, &victims);
    assert_eq!(dead, vec![goblin]);
    assert_eq!(
        lines(&log),
        vec![
            "Player attacks Goblin for 6 damage".to_string(),
            "Player attacks Goblin for 6 damage".to_string(),
            "Goblin died".to_string(),
        ]
    );

    let at = Position { x: 3, y: 3 };
    let mut placed = vec![
        Placed { entity: Entity { id: 10 }, position: at, blocker: false, opaque: false },
        Placed { entity: goblin, position: at, blocker: true, opaque: false },
    ];
    let mut index = GridIndex::new(8, 8);
    index.rebuild(&placed);
    assert_eq!(index.at_position(&at), vec![Entity { id: 10 }, goblin]);
    assert!(index.is_blocked_at(&at));
    placed.retain(|p| !dead.contains(&p.entity));
    index.rebuild(&placed);
    assert_eq!(index.at_position(&at), vec![Entity { id: 10 }]);
    assert!(!index.is_blocked_at(&at));
}

#[test]
fn attacks_on_one_target_are_all_resolved_before_the_death_sweep() {
    let mut rng = RandomNumberGenerator::seeded(1);
    let mut log = GameLog::new();
    let attackers = vec![attacker(1, "Player", dice(0, 1, 6)), attacker(4, "Orc", dice(0, 1, 7))];
    let mut victims = vec![victim(2, Some("Goblin"), 10)];
    let events = vec![
        AttackEvent { attacker: Entity { id: 1 }, target: Entity { id: 2 } },
        AttackEvent { attacker: Entity { id: 4 }, target: Entity { id: 2 } },
    ];
    combat(&mut log, &events, &attackers, &mut victims, &mut rng);
    assert_eq!(victims[0].health.current, 0);
    assert_eq!(victims[0].health.max, 10);
    let dead = track_dead(&mut log, &victims);
    assert_eq!(dead, vec![Entity { id: 2 }]);
    assert_eq!(
        lines(&log),
        vec![
            "Player attacks Goblin for 6 damage".to_string(),
            "Orc attacks Goblin for 7 damage".to_string(),
            "Goblin died".to_string(),
        ]
    );
}

#[test]
fn an_attack_without_attacker_or_target_is_dropped() {
    let mut rng = RandomNumberGenerator::seeded(1);
    let mut log = GameLog::new();
    let attackers = vec![attacker(1, "Player", dice(0, 1, 6))];
    let mut victims = vec![victim(2, Some("Goblin"), 10)];
    let events = vec![
        AttackEvent { attacker: Entity { id: 9 }, target: Entity { id: 2 } },
        AttackEvent { attacker: Entity { id: 1 }, target: Entity { id: 9 } },
    ];
    combat(&mut log, &events, &attackers, &mut victims, &mut rng);
    assert_eq!(victims[0].health.current, 10);
    assert!(lines(&log).is_empty());
}

#[test]
fn rolled_attacks_stay_within_the_dice() {
    let mut rng = RandomNumberGenerator::seeded(99);
    let attackers = vec![attacker(1, "Player", dice(1, 6, 0))];
    let events = vec![AttackEvent { attacker: Entity { id: 1 }, target: Entity { id: 2 } }];
    for _ in 0..300 {
        let mut log = GameLog::new();
        let mut victims = vec![victim(2, Some("Goblin"), 10)];
        combat(&mut log, &events, &attackers, &mut victims, &mut rng);
        let lost = 10 - victims[0].health.current;
        assert!((1..=6).contains(&lost));
        assert_eq!(lines(&log), vec![format!("Player attacks Goblin for {} damage", lost)]);
    }
}

#[test]
fn the_death_sweep_names_the_nameless_unknown() {
    let mut log = GameLog::new();
    let mut actors = vec![victim(1, Some("Orc"), 3), victim(2, None, 5), victim(3, Some("Goblin"), 1)];
    actors[1].health.take_damage(5);
    actors[2].health.take_damage(1);
    let dead = track_dead(&mut log, &actors);
    assert_eq!(dead, vec![Entity { id: 2 }, Entity { id: 3 }]);
    assert_eq!(lines(&log), vec!["Unknown died".to_string(), "Goblin died".to_string()]);
}
