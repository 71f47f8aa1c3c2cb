use roguelike::combat::Health;
use roguelike::components::{Entity, Layer, Position};
use roguelike::entity_set::EntitySet;
use roguelike::events::PickupEvent;
use roguelike::grid::{GridIndex, Placed};
use roguelike::inventory::{backpack_of, handle_menu_input, item_for_letter, MenuOutcome};
use roguelike::items::{
    handle_pickup, handle_use_item, handle_want_pickup, health_potion, lookup_name, pickup_message,
    potion_message, Carried, Collector, ItemUser, Named, Potion, PotionItem,
};
use roguelike::log::GameLog;

const PLAYER: Entity = Entity { id: 1 };
const POTION: Entity = Entity { id: 20 };
const SCROLL: Entity = Entity { id: 21 };

fn at(x: i32, y: i32) -> Position {
    Position { x, y }
}

fn lying(entity: Entity, x: i32, y: i32) -> Placed {
    Placed { entity, position: at(x, y), blocker: false, opaque: false }
}

fn named(entity: Entity, name: &str) -> Named {
    Named { entity, name: name.to_string() }
}

#[test]
fn a_healing_potion_heals_eight() {
    let item = health_potion(at(4, 7));
    assert_eq!(item.name, "Healing potion");
    assert_eq!(item.glyph, '\u{a1}');
    assert_eq!(item.position, at(4, 7));
    assert_eq!(item.layer, Layer(2));
    assert!(item.unrevealable);
    assert_eq!(item.potion, Potion { heal_amount: 8 });
}

#[test]
fn the_first_item_on_the_cell_is_picked_up() {
    let mut index = GridIndex::new(8, 8);
    index.rebuild(&vec![
        lying(Entity { id: 100 }, 2, 2),
        lying(SCROLL, 2, 2),
        lying(POTION, 2, 2),
        lying(PLAYER, 2, 2),
        lying(Entity { id: 101 }, 3, 3),
    ]);
    let items = EntitySet::from_entities(&vec![POTION, SCROLL]);
    let other = Entity { id: 2 };
    let mut collectors = vec![
        Collector { entity: PLAYER, position: at(2, 2) },
        Collector { entity: other, position: at(3, 3) },
        Collector { entity: Entity { id: 3 }, position: at(9, 9) },
    ];
    let events = handle_want_pickup(&index, &mut collectors, &items);
    assert_eq!(events, vec![PickupEvent { collected_by: PLAYER, item: SCROLL }]);
    assert_eq!(
        collectors,
        vec![
            Collector { entity: other, position: at(3, 3) },
            Collector { entity: Entity { id: 3 }, position: at(9, 9) },
        ]
    );
}

#[test]
fn a_pickup_moves_the_item_into_the_backpack() {
    let mut log = GameLog::new();
    let names = vec![named(PLAYER, "Player"), named(POTION, "Healing potion")];
    let mut items = vec![
        Carried { entity: SCROLL, position: Some(at(1, 1)), owner: None },
        Carried { entity: POTION, position: Some(at(2, 2)), owner: None },
    ];
    let events = vec![
        PickupEvent { collected_by: PLAYER, item: POTION },
        PickupEvent { collected_by: Entity { id: 9 }, item: SCROLL },
        PickupEvent { collected_by: PLAYER, item: Entity { id: 99 } },
    ];
    handle_pickup(&mut log, &events, &names, &mut items);
    assert_eq!(
        items,
        vec![
            Carried { entity: SCROLL, position: None, owner: Some(Entity { id: 9 }) },
            Carried { entity: POTION, position: None, owner: Some(PLAYER) },
        ]
    );
    assert_eq!(
        log.entries().clone(),
        vec!["Player pickups Healing potion".to_string(), " pickups ".to_string(), "Player pickups ".to_string()]
    );
    assert_eq!(lookup_name(&names, PLAYER), "Player");
    assert_eq!(lookup_name(&names, SCROLL), "");
    assert_eq!(pickup_message("Orc", "Axe"), "Orc pickups Axe");
}

fn user(id: u64, want: Option<Entity>, name: &str, health: Option<Health>) -> ItemUser {
    ItemUser { entity: Entity { id }, want, name: name.to_string(), health }
}

#[test]
fn a_potion_restores_hit_points_up_to_the_maximum() {
    let mut log = GameLog::new();
    let potions = vec![PotionItem { entity: POTION, potion: Potion { heal_amount: 8 } }];
    let mut users = vec![
        user(1, Some(POTION), "Player", Some(Health { current: 5, max: 20 })),
        user(2, Some(POTION), "Orc", Some(Health { current: 7, max: 10 })),
        user(3, Some(SCROLL), "Goblin", Some(Health { current: 1, max: 10 })),
        user(4, Some(POTION), "Statue", None),
        user(5, None, "Bat", Some(Health { current: 1, max: 10 })),
    ];
    let used = handle_use_item(&mut log, &mut users, &potions);
    assert_eq!(used, vec![POTION, POTION]);
    assert_eq!(users[0].health, Some(Health { current: 13, max: 20 }));
    assert_eq!(users[1].health, Some(Health { current: 10, max: 10 }));
    assert_eq!(users[2].health, Some(Health { current: 1, max: 10 }));
    assert_eq!(users[3].health, None);
    assert_eq!(users[4].health, Some(Health { current: 1, max: 10 }));
    assert!(users.iter().all(|u| u.want.is_none()));
    assert_eq!(users[1].name, "Orc");
    assert_eq!(
        log.entries().clone(),
        vec![
            "Player drinks potion, restores: 8 hp".to_string(),
            "Orc drinks potion, restores: 8 hp".to_string(),
        ]
    );
    assert_eq!(potion_message("Imp", 120), "Imp drinks potion, restores: 120 hp");
}

#[test]
fn the_backpack_lists_what_its_owner_carries() {
    let items = vec![
        Carried { entity: SCROLL, position: None, owner: Some(PLAYER) },
        Carried { entity: Entity { id: 22 }, position: Some(at(1, 1)), owner: None },
        Carried { entity: Entity { id: 23 }, position: None, owner: Some(Entity { id: 2 }) },
        Carried { entity: POTION, position: None, owner: Some(PLAYER) },
    ];
    assert_eq!(backpack_of(&items, PLAYER), vec![SCROLL, POTION]);
    assert_eq!(backpack_of(&items, Entity { id: 2 }), vec![Entity { id: 23 }]);
    assert!(backpack_of(&items, Entity { id: 3 }).is_empty());
}

#[test]
fn letters_pick_items_from_a_to_y() {
    let backpack: Vec<Entity> = (0..30).map(|id| Entity { id }).collect();
    assert_eq!(item_for_letter(&backpack, 'a'), Some(Entity { id: 0 }));
    assert_eq!(item_for_letter(&backpack, 'c'), Some(Entity { id: 2 }));
    assert_eq!(item_for_letter(&backpack, 'y'), Some(Entity { id: 24 }));
    assert_eq!(item_for_letter(&backpack, 'z'), None);
    assert_eq!(item_for_letter(&backpack, 'A'), None);
    assert_eq!(item_for_letter(&backpack, '1'), None);
    assert_eq!(item_for_letter(&backpack, '{'), None);
    let small = vec![SCROLL, POTION];
    assert_eq!(item_for_letter(&small, 'b'), Some(POTION));
    assert_eq!(item_for_letter(&small, 'c'), None);
    assert_eq!(item_for_letter(&vec![], 'a'), None);
}

#[test]
fn the_menu_closes_on_a_pick_and_on_escape() {
    let backpack = vec![SCROLL, POTION];
    assert_eq!(handle_menu_input(&backpack, false, Some('b')), MenuOutcome { chosen: Some(POTION), close: true });
    assert_eq!(handle_menu_input(&backpack, true, None), MenuOutcome { chosen: None, close: true });
    assert_eq!(handle_menu_input(&backpack, false, Some('q')), MenuOutcome { chosen: None, close: false });
    assert_eq!(handle_menu_input(&backpack, false, None), MenuOutcome { chosen: None, close: false });
    assert_eq!(handle_menu_input(&backpack, true, Some('a')), MenuOutcome { chosen: Some(SCROLL), close: true });
}
