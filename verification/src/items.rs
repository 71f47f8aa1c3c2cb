//! Items: picking them up from the floor and using them from the backpack.

use vstd::prelude::*;
use vstd::string::StringExecFns;
use crate::combat::Health;
use crate::components::{Entity, Layer, Position, LAYER_ITEM};
use crate::entity_set::{first_member, EntitySet};
use crate::events::PickupEvent;
use crate::grid::GridIndex;
use crate::log::GameLog;
use crate::text::{decimal, decimal_string};

verus! {

/// Hit points that the healing potion restores.
pub const POTION_HEAL_AMOUNT: u32 = 8;

/// A drink that restores hit points.
#[derive(Clone, Copy, Debug, PartialEq, Eq, Structural)]
pub struct Potion {
    pub heal_amount: u32,
}

/// What an item is made of when it enters the world.
#[derive(Debug)]
pub struct ItemBundle {
    pub name: String,
    pub glyph: char,
    pub position: Position,
    pub layer: Layer,
    pub unrevealable: bool,
    pub potion: Potion,
}

/// A healing potion lying at `position`.
pub fn health_potion(position: Position) -> (item: ItemBundle)
    ensures
        item.name@ == "Healing potion"@,
        item.glyph == '\u{a1}',
        item.position == position,
        item.layer == Layer(LAYER_ITEM),
        item.unrevealable,
        item.potion.heal_amount == POTION_HEAL_AMOUNT,
{
    ItemBundle {
        name: String::from_str("Healing potion"),
        glyph: '\u{a1}',
        position,
        layer: Layer(LAYER_ITEM),
        unrevealable: true,
        potion: Potion { heal_amount: POTION_HEAL_AMOUNT },
    }
}

/// An actor that wants to pick up what lies at its feet.
#[derive(Clone, Copy, Debug, PartialEq, Eq, Structural)]
pub struct Collector {
    pub entity: Entity,
    pub position: Position,
}

/// The pickups that `collectors` make, in order: each takes the first item on its cell.
pub open spec fn pickups_of(index: &GridIndex, collectors: Seq<Collector>, items: Set<Entity>) -> Seq<
    PickupEvent,
>
    decreases collectors.len(),
{
    if collectors.len() == 0 {
        Seq::empty()
    } else {
        let earlier = pickups_of(index, collectors.drop_last(), items);
        let last = collectors.last();
        match first_member(index.occupants_at(last.position), items) {
            Some(item) => earlier.push(PickupEvent { collected_by: last.entity, item }),
            None => earlier,
        }
    }
}

/// The collectors that find no item on their cell and go on wanting, in order.
pub open spec fn still_wanting(index: &GridIndex, collectors: Seq<Collector>, items: Set<Entity>) -> Seq<
    Collector,
>
    decreases collectors.len(),
{
    if collectors.len() == 0 {
        Seq::empty()
    } else {
        let earlier = still_wanting(index, collectors.drop_last(), items);
        let last = collectors.last();
        match first_member(index.occupants_at(last.position), items) {
            Some(_) => earlier,
            None => earlier.push(last),
        }
    }
}

/// Lets every collector pick up the first item on its cell. A collector that
/// finds one is done; one that finds none stays on the list.
pub fn handle_want_pickup(index: &GridIndex, collectors: &mut Vec<Collector>, items: &EntitySet) -> (events:
    Vec<PickupEvent>)
    ensures
        events@ == pickups_of(index, old(collectors)@, items@),
        final(collectors)@ == still_wanting(index, old(collectors)@, items@),
{
    let mut events: Vec<PickupEvent> = Vec::new();
    let mut waiting: Vec<Collector> = Vec::new();
    let mut i: usize = 0;
    while i < collectors.len()
        invariant
            i <= collectors.len(),
            collectors@ == old(collectors)@,
            events@ == pickups_of(index, collectors@.take(i as int), items@),
            waiting@ == still_wanting(index, collectors@.take(i as int), items@),
        decreases collectors.len() - i,
    {
        assert(collectors@.take(i + 1).drop_last() =~= collectors@.take(i as int));
        let collector = collectors[i];
        let here = index.at_position(&collector.position);
        match items.first_in(&here) {
            Some(item) => {
                events.push(PickupEvent { collected_by: collector.entity, item });
            },
            None => {
                waiting.push(collector);
            },
        }
        i += 1;
    }
    assert(collectors@.take(i as int) =~= collectors@);
    *collectors = waiting;
    events
}

/// An entity with its name.
#[derive(Debug)]
pub struct Named {
    pub entity: Entity,
    pub name: String,
}

/// Where an item is: on a cell, or in somebody's backpack.
#[derive(Clone, Copy, Debug, PartialEq, Eq, Structural)]
pub struct Carried {
    pub entity: Entity,
    pub position: Option<Position>,
    pub owner: Option<Entity>,
}

/// The entities of a list of names, in order.
pub open spec fn named_ids(names: Seq<Named>) -> Seq<Entity> {
    names.map_values(|n: Named| n.entity)
}

/// The entities of a list of items, in order.
pub open spec fn carried_ids(items: Seq<Carried>) -> Seq<Entity> {
    items.map_values(|c: Carried| c.entity)
}

/// The name of `entity`; empty for an entity without one.
pub open spec fn name_of(names: Seq<Named>, entity: Entity) -> Seq<char> {
    match named_ids(names).index_of_first(entity) {
        Some(i) => names[i].name@,
        None => Seq::empty(),
    }
}

/// The log line of one pickup.
pub open spec fn pickup_line(collector: Seq<char>, item: Seq<char>) -> Seq<char> {
    collector + " pickups "@ + item
}

/// The log line of one potion drunk.
pub open spec fn potion_line(name: Seq<char>, amount: nat) -> Seq<char> {
    name + " drinks potion, restores: "@ + decimal(amount) + " hp"@
}

/// The items after one pickup: the item leaves its cell for the backpack of
/// the collector. A pickup of an item that is not on the list changes nothing.
pub open spec fn after_pickup(items: Seq<Carried>, event: PickupEvent) -> Seq<Carried> {
    match carried_ids(items).index_of_first(event.item) {
        Some(i) => items.update(
            i,
            Carried { position: None, owner: Some(event.collected_by), ..items[i] },
        ),
        None => items,
    }
}

/// The items after the pickups of `events`, in order.
pub open spec fn after_pickups(items: Seq<Carried>, events: Seq<PickupEvent>) -> Seq<Carried>
    decreases events.len(),
{
    if events.len() == 0 {
        items
    } else {
        after_pickup(after_pickups(items, events.drop_last()), events.last())
    }
}

/// The log lines of the pickups of `events`, in order.
pub open spec fn pickup_lines(names: Seq<Named>, events: Seq<PickupEvent>) -> Seq<Seq<char>>
    decreases events.len(),
{
    if events.len() == 0 {
        Seq::empty()
    } else {
        pickup_lines(names, events.drop_last()).push(
            pickup_line(name_of(names, events.last().collected_by), name_of(names, events.last().item)),
        )
    }
}

fn find_named(names: &Vec<Named>, entity: Entity) -> (found: Option<usize>)
    ensures
        match found {
            Some(i) => i < names.len() && named_ids(names@).index_of_first(entity) == Some(i as int),
            None => named_ids(names@).index_of_first(entity).is_none(),
        },
{
    let ghost ids = named_ids(names@);
    let mut i: usize = 0;
    while i < names.len()
        invariant
            i <= names.len(),
            ids == named_ids(names@),
            forall|j: int| 0 <= j < i ==> ids[j] != entity,
        decreases names.len() - i,
    {
        if names[i].entity == entity {
            proof {
                assert(ids[i as int] == entity);
                ids.index_of_first_ensures(entity);
            }
            return Some(i);
        }
        i += 1;
    }
    proof {
        ids.index_of_first_ensures(entity);
    }
    None
}

fn find_carried(items: &Vec<Carried>, entity: Entity) -> (found: Option<usize>)
    ensures
        match found {
            Some(i) => i < items.len() && carried_ids(items@).index_of_first(entity) == Some(i as int),
            None => carried_ids(items@).index_of_first(entity).is_none(),
        },
{
    let ghost ids = carried_ids(items@);
    let mut i: usize = 0;
    while i < items.len()
        invariant
            i <= items.len(),
            ids == carried_ids(items@),
            forall|j: int| 0 <= j < i ==> ids[j] != entity,
        decreases items.len() - i,
    {
        if items[i].entity == entity {
            proof {
                assert(ids[i as int] == entity);
                ids.index_of_first_ensures(entity);
            }
            return Some(i);
        }
        i += 1;
    }
    proof {
        ids.index_of_first_ensures(entity);
    }
    None
}

/// The name of `entity`; empty for an entity without one.
pub fn lookup_name(names: &Vec<Named>, entity: Entity) -> (name: &str)
    ensures
        name@ == name_of(names@, entity),
{
    match find_named(names, entity) {
        Some(i) => names[i].name.as_str(),
        None => {
            proof {
                reveal_strlit("");
            }
            assert(""@ =~= Seq::<char>::empty());
            ""
        },
    }
}

/// Writes the log line of one pickup.
pub fn pickup_message(collector: &str, item: &str) -> (line: String)
    ensures
        line@ == pickup_line(collector@, item@),
{
    let mut line = String::from_str(collector);
    line.append(" pickups ");
    line.append(item);
    line
}

/// Writes the log line of one potion drunk.
pub fn potion_message(name: &str, amount: u32) -> (line: String)
    ensures
        line@ == potion_line(name@, amount as nat),
{
    let mut line = String::from_str(name);
    line.append(" drinks potion, restores: ");
    let digits = decimal_string(amount);
    line.append(digits.as_str());
    line.append(" hp");
    line
}

/// Carries out the pickups of one cycle in order: each item leaves its cell
/// for the backpack of its collector, and the log gets one line.
pub fn handle_pickup(
    game_log: &mut GameLog,
    events: &Vec<PickupEvent>,
    names: &Vec<Named>,
    items: &mut Vec<Carried>,
)
    ensures
        final(items)@ == after_pickups(old(items)@, events@),
        final(game_log)@ == old(game_log)@ + pickup_lines(names@, events@),
{
    let mut i: usize = 0;
    while i < events.len()
        invariant
            i <= events.len(),
            items@ == after_pickups(old(items)@, events@.take(i as int)),
            game_log@ == old(game_log)@ + pickup_lines(names@, events@.take(i as int)),
        decreases events.len() - i,
    {
        assert(events@.take(i + 1).drop_last() =~= events@.take(i as int));
        let event = events[i];
        match find_carried(items, event.item) {
            Some(at) => {
                let item = items[at];
                items[at] = Carried { position: None, owner: Some(event.collected_by), ..item };
            },
            None => {},
        }
        let line = pickup_message(lookup_name(names, event.collected_by), lookup_name(names, event.item));
        game_log.push_line(line);
        assert(game_log@ =~= old(game_log)@ + pickup_lines(names@, events@.take(i + 1)));
        i += 1;
    }
    assert(events@.take(i as int) =~= events@);
}

/// An actor that wants to use an item from its backpack.
#[derive(Debug)]
pub struct ItemUser {
    pub entity: Entity,
    pub want: Option<Entity>,
    pub name: String,
    pub health: Option<Health>,
}

/// An item that is a potion.
#[derive(Clone, Copy, Debug, PartialEq, Eq, Structural)]
pub struct PotionItem {
    pub entity: Entity,
    pub potion: Potion,
}

/// The entities of a list of potions, in order.
pub open spec fn potion_ids(potions: Seq<PotionItem>) -> Seq<Entity> {
    potions.map_values(|p: PotionItem| p.entity)
}

/// The potion that `user` drinks: the item it wants to use, if that is a
/// potion and the user has hit points to restore.
pub open spec fn potion_drunk(user: ItemUser, potions: Seq<PotionItem>) -> Option<PotionItem> {
    match (user.want, user.health) {
        (Some(item), Some(_)) => match potion_ids(potions).index_of_first(item) {
            Some(i) => Some(potions[i]),
            None => None,
        },
        _ => None,
    }
}

/// A user after its request: the potion, if it drank one, has restored hit
/// points up to the maximum, and the request is gone either way.
pub open spec fn after_use(user: ItemUser, potions: Seq<PotionItem>) -> ItemUser {
    match potion_drunk(user, potions) {
        Some(p) => ItemUser {
            want: None,
            health: Some(user.health.unwrap().healed(p.potion.heal_amount as int)),
            ..user
        },
        None => ItemUser { want: None, ..user },
    }
}

/// The potions that `users` drink, in order.
pub open spec fn potions_used(users: Seq<ItemUser>, potions: Seq<PotionItem>) -> Seq<Entity>
    decreases users.len(),
{
    if users.len() == 0 {
        Seq::empty()
    } else {
        let earlier = potions_used(users.drop_last(), potions);
        match potion_drunk(users.last(), potions) {
            Some(p) => earlier.push(p.entity),
            None => earlier,
        }
    }
}

/// The log lines of the potions that `users` drink, in order.
pub open spec fn potion_lines(users: Seq<ItemUser>, potions: Seq<PotionItem>) -> Seq<Seq<char>>
    decreases users.len(),
{
    if users.len() == 0 {
        Seq::empty()
    } else {
        let earlier = potion_lines(users.drop_last(), potions);
        match potion_drunk(users.last(), potions) {
            Some(p) => earlier.push(potion_line(users.last().name@, p.potion.heal_amount as nat)),
            None => earlier,
        }
    }
}

fn find_potion(potions: &Vec<PotionItem>, entity: Entity) -> (found: Option<usize>)
    ensures
        match found {
            Some(i) => i < potions.len() && potion_ids(potions@).index_of_first(entity) == Some(i as int),
            None => potion_ids(potions@).index_of_first(entity).is_none(),
        },
{
    let ghost ids = potion_ids(potions@);
    let mut i: usize = 0;
    while i < potions.len()
        invariant
            i <= potions.len(),
            ids == potion_ids(potions@),
            forall|j: int| 0 <= j < i ==> ids[j] != entity,
        decreases potions.len() - i,
    {
        if potions[i].entity == entity {
            proof {
                assert(ids[i as int] == entity);
                ids.index_of_first_ensures(entity);
            }
            return Some(i);
        }
        i += 1;
    }
    proof {
        ids.index_of_first_ensures(entity);
    }
    None
}

/// Serves the requests to use an item, in order. A user with hit points that
/// asks for a potion drinks it: the potion restores hit points up to the
/// maximum, leaves the backpack and is logged. Every request is taken off its
/// user, whatever became of it. Returns the potions that were drunk.
pub fn handle_use_item(game_log: &mut GameLog, users: &mut Vec<ItemUser>, potions: &Vec<PotionItem>) -> (used:
    Vec<Entity>)
    ensures
        final(users)@.len() == old(users)@.len(),
        forall|i: int|
            0 <= i < old(users)@.len() ==> #[trigger] final(users)@[i] == after_use(old(users)@[i], potions@),
        used@ == potions_used(old(users)@, potions@),
        final(game_log)@ == old(game_log)@ + potion_lines(old(users)@, potions@),
{
    let mut used: Vec<Entity> = Vec::new();
    let n = users.len();
    let mut i: usize = 0;
    while i < n
        invariant
            i <= n,
            n == users.len(),
            n == old(users)@.len(),
            forall|j: int| 0 <= j < i ==> #[trigger] users@[j] == after_use(old(users)@[j], potions@),
            forall|j: int| i <= j < n ==> #[trigger] users@[j] == old(users)@[j],
            used@ == potions_used(old(users)@.take(i as int), potions@),
            game_log@ == old(game_log)@ + potion_lines(old(users)@.take(i as int), potions@),
        decreases n - i,
    {
        assert(old(users)@.take(i + 1).drop_last() =~= old(users)@.take(i as int));
        let ghost before = users@[i as int];
        let user = &mut users[i];
        let mut drunk: Option<PotionItem> = None;
        if let Some(item) = user.want {
            if user.health.is_some() {
                if let Some(at) = find_potion(potions, item) {
                    drunk = Some(potions[at]);
                }
            }
        }
        assert(drunk == potion_drunk(before, potions@));
        user.want = None;
        if let Some(p) = drunk {
            let mut health = user.health.unwrap();
            health.heal(p.potion.heal_amount);
            user.health = Some(health);
            let line = potion_message(user.name.as_str(), p.potion.heal_amount);
            used.push(p.entity);
            game_log.push_line(line);
        }
        assert(game_log@ =~= old(game_log)@ + potion_lines(old(users)@.take(i + 1), potions@));
        i += 1;
    }
    assert(old(users)@.take(i as int) =~= old(users)@);
    used
}

} // verus!
