use roguelike::components::{Energy, Entity, Position, WantToMove};
use roguelike::entity_set::EntitySet;
use roguelike::events::{AttackEvent, MoveEvent};
use roguelike::grid::{GridIndex, Placed};
use roguelike::movement::{handle_want_to_move, movement, resolve_intent, Intent, Mover, Resolution};

const FLOOR: u64 = 1000;
const A: Entity = Entity { id: 1 };
const B: Entity = Entity { id: 2 };

fn at(x: i32, y: i32) -> Position {
    Position { x, y }
}

fn field_with(extra: Vec<Placed>) -> GridIndex {
    let mut placed = Vec::new();
    for y in 0..10 {
        for x in 0..10 {
            placed.push(Placed {
                entity: Entity { id: FLOOR + (y * 10 + x) as u64 },
                position: at(x, y),
                blocker: false,
                opaque: false,
            });
        }
    }
    placed.extend(extra);
    let mut index = GridIndex::new(10, 10);
    index.rebuild(&placed);
    index
}

fn set_of(entities: &[Entity]) -> EntitySet {
    EntitySet::from_entities(&entities.to_vec())
}

fn intent(entity: Entity, x: i32, y: i32) -> Intent {
    Intent { entity, want: WantToMove { position: at(x, y) } }
}

#[test]
fn moving_into_an_actor_with_health_is_an_attack() {
    let index = field_with(vec![
        Placed { entity: A, position: at(5, 5), blocker: false, opaque: false },
        Placed { entity: B, position: at(6, 5), blocker: true, opaque: false },
    ]);
    let victims = set_of(&[A, B]);
    let blocks = set_of(&[B]);
    let mut intents = vec![intent(A, 6, 5)];
    let events = handle_want_to_move(&index, &mut intents, &victims, &blocks);
    assert_eq!(events.attacks, vec![AttackEvent { attacker: A, target: B }]);
    assert!(events.moves.is_empty());
    assert!(intents.is_empty());

    let mut movers = vec![Mover { entity: A, position: at(5, 5), energy: Energy(100) }];
    movement(&events.moves, &mut movers);
    assert_eq!(movers, vec![Mover { entity: A, position: at(5, 5), energy: Energy(100) }]);
}

#[test]
fn a_free_cell_is_moved_onto_and_costs_the_energy() {
    let index = field_with(vec![Placed { entity: A, position: at(5, 5), blocker: false, opaque: false }]);
    let mut intents = vec![intent(A, 6, 6)];
    let events = handle_want_to_move(&index, &mut intents, &set_of(&[A]), &set_of(&[]));
    assert!(events.attacks.is_empty());
    assert_eq!(events.moves, vec![MoveEvent { entity: A, position: at(6, 6) }]);
    assert!(intents.is_empty());

    let mut movers = vec![
        Mover { entity: B, position: at(1, 1), energy: Energy(40) },
        Mover { entity: A, position: at(5, 5), energy: Energy(130) },
    ];
    movement(&events.moves, &mut movers);
    assert_eq!(
        movers,
        vec![
            Mover { entity: B, position: at(1, 1), energy: Energy(40) },
            Mover { entity: A, position: at(6, 6), energy: Energy(0) },
        ]
    );
}

#[test]
fn a_blocked_cell_drops_the_request() {
    let wall = Entity { id: 50 };
    let index = field_with(vec![Placed { entity: wall, position: at(6, 5), blocker: true, opaque: true }]);
    let mut intents = vec![intent(A, 6, 5)];
    let events = handle_want_to_move(&index, &mut intents, &set_of(&[A]), &set_of(&[wall]));
    assert!(events.attacks.is_empty());
    assert!(events.moves.is_empty());
    assert!(intents.is_empty());
}

#[test]
fn a_cell_that_holds_nothing_drops_the_request() {
    let index = field_with(vec![]);
    let victims = set_of(&[]);
    let blocks = set_of(&[]);
    assert_eq!(resolve_intent(&index, &intent(A, 10, 5), &victims, &blocks), Resolution::Discarded);
    assert_eq!(resolve_intent(&index, &intent(A, -1, 0), &victims, &blocks), Resolution::Discarded);
    assert_eq!(
        resolve_intent(&index, &intent(A, 9, 9), &victims, &blocks),
        Resolution::Move(MoveEvent { entity: A, position: at(9, 9) })
    );
}

#[test]
fn an_attack_comes_before_a_block() {
    let wall = Entity { id: 50 };
    let index = field_with(vec![
        Placed { entity: wall, position: at(3, 3), blocker: true, opaque: true },
        Placed { entity: B, position: at(3, 3), blocker: true, opaque: false },
    ]);
    let made = resolve_intent(&index, &intent(A, 3, 3), &set_of(&[B]), &set_of(&[wall, B]));
    assert_eq!(made, Resolution::Attack(AttackEvent { attacker: A, target: B }));
}

#[test]
fn only_the_first_target_on_a_cell_is_attacked() {
    let c = Entity { id: 3 };
    let index = field_with(vec![
        Placed { entity: c, position: at(3, 3), blocker: false, opaque: false },
        Placed { entity: B, position: at(3, 3), blocker: false, opaque: false },
    ]);
    let mut intents = vec![intent(A, 3, 3)];
    let events = handle_want_to_move(&index, &mut intents, &set_of(&[B, c]), &set_of(&[]));
    assert_eq!(events.attacks, vec![AttackEvent { attacker: A, target: c }]);
    assert!(events.moves.is_empty());
}

#[test]
fn requests_are_resolved_in_order() {
    let wall = Entity { id: 50 };
    let index = field_with(vec![
        Placed { entity: wall, position: at(0, 0), blocker: true, opaque: true },
        Placed { entity: B, position: at(6, 5), blocker: true, opaque: false },
    ]);
    let c = Entity { id: 3 };
    let mut intents = vec![intent(A, 6, 5), intent(c, 0, 0), intent(B, 7, 5), intent(c, 6, 5), intent(A, 2, 2)];
    let events = handle_want_to_move(&index, &mut intents, &set_of(&[A, B, c]), &set_of(&[wall, B]));
    assert_eq!(
        events.attacks,
        vec![AttackEvent { attacker: A, target: B }, AttackEvent { attacker: c, target: B }]
    );
    assert_eq!(
        events.moves,
        vec![MoveEvent { entity: B, position: at(7, 5) }, MoveEvent { entity: A, position: at(2, 2) }]
    );
    assert!(intents.is_empty());
}

#[test]
fn moves_are_carried_out_in_order() {
    let mut movers = vec![
        Mover { entity: A, position: at(1, 1), energy: Energy(100) },
        Mover { entity: B, position: at(2, 2), energy: Energy(100) },
    ];
    let events = vec![
        MoveEvent { entity: A, position: at(1, 2) },
        MoveEvent { entity: Entity { id: 77 }, position: at(9, 9) },
        MoveEvent { entity: A, position: at(1, 3) },
    ];
    movement(&events, &mut movers);
    assert_eq!(
        movers,
        vec![
            Mover { entity: A, position: at(1, 3), energy: Energy(0) },
            Mover { entity: B, position: at(2, 2), energy: Energy(100) },
        ]
    );
}

#[test]
fn an_entity_set_knows_its_members() {
    let mut set = EntitySet::new();
    assert!(!set.contains(&A));
    set.insert(A);
    set.insert(A);
    assert!(set.contains(&A));
    assert!(!set.contains(&B));
    let list = vec![Entity { id: 9 }, B, A, B];
    assert_eq!(set.first_in(&list), Some(A));
    assert!(set.any_in(&list));
    assert_eq!(set.first_in(&vec![B]), None);
    assert!(!set.any_in(&vec![B]));
    assert!(!set.any_in(&vec![]));
}
