//! The action resolver: what becomes of each request to move, and the moves
//! that were accepted.

use vstd::prelude::*;
use crate::components::{Energy, Entity, Position, WantToMove};
use crate::entity_set::{any_member, first_member, EntitySet};
use crate::events::{AttackEvent, MoveEvent};
use crate::grid::GridIndex;

verus! {

/// The request of one actor, as the resolver takes it.
#[derive(Clone, Copy, Debug, PartialEq, Eq, Structural)]
pub struct Intent {
    pub entity: Entity,
    pub want: WantToMove,
}

/// What the resolver makes of one request.
#[derive(Clone, Copy, Debug, PartialEq, Eq, Structural)]
pub enum Resolution {
    /// Somebody with hit points stands there: the actor attacks and stays.
    Attack(AttackEvent),
    /// The cell is free: the actor may step onto it.
    Move(MoveEvent),
    /// The cell is blocked, or holds nothing at all: the request is dropped.
    Discarded,
}

/// The events of one resolver run.
pub struct Resolved {
    pub attacks: Vec<AttackEvent>,
    pub moves: Vec<MoveEvent>,
}

/// A moving entity, as the movement phase sees it.
#[derive(Clone, Copy, Debug, PartialEq, Eq, Structural)]
pub struct Mover {
    pub entity: Entity,
    pub position: Position,
    pub energy: Energy,
}

/// What becomes of `intent`, by the first rule that applies: with somebody
/// with hit points on the cell, an attack on the first such occupant; with
/// nothing on the cell or with a blocker there, nothing; else the move.
pub open spec fn resolution(
    index: &GridIndex,
    intent: Intent,
    victims: Set<Entity>,
    blocks: Set<Entity>,
) -> Resolution {
    let occupants = index.occupants_at(intent.want.position);
    match first_member(occupants, victims) {
        Some(target) => Resolution::Attack(AttackEvent { attacker: intent.entity, target }),
        None => if occupants.len() == 0 || any_member(occupants, blocks) {
            Resolution::Discarded
        } else {
            Resolution::Move(MoveEvent { entity: intent.entity, position: intent.want.position })
        },
    }
}

/// The attacks that `intents` lead to, in order.
pub open spec fn attacks_of(
    index: &GridIndex,
    intents: Seq<Intent>,
    victims: Set<Entity>,
    blocks: Set<Entity>,
) -> Seq<AttackEvent>
    decreases intents.len(),
{
    if intents.len() == 0 {
        Seq::empty()
    } else {
        let earlier = attacks_of(index, intents.drop_last(), victims, blocks);
        match resolution(index, intents.last(), victims, blocks) {
            Resolution::Attack(event) => earlier.push(event),
            _ => earlier,
        }
    }
}

/// The moves that `intents` lead to, in order.
pub open spec fn moves_of(
    index: &GridIndex,
    intents: Seq<Intent>,
    victims: Set<Entity>,
    blocks: Set<Entity>,
) -> Seq<MoveEvent>
    decreases intents.len(),
{
    if intents.len() == 0 {
        Seq::empty()
    } else {
        let earlier = moves_of(index, intents.drop_last(), victims, blocks);
        match resolution(index, intents.last(), victims, blocks) {
            Resolution::Move(event) => earlier.push(event),
            _ => earlier,
        }
    }
}

/// Resolves one request against the index: an attack if somebody with hit
/// points stands on the cell, nothing if the cell is blocked or holds
/// nothing, and else the move.
pub fn resolve_intent(index: &GridIndex, intent: &Intent, victims: &EntitySet, blocks: &EntitySet) -> (made:
    Resolution)
    ensures
        made == resolution(index, *intent, victims@, blocks@),
{
    let occupants = match index.occupants(&intent.want.position) {
        Some(list) => list,
        None => {
            return Resolution::Discarded;
        },
    };
    match victims.first_in(occupants) {
        Some(target) => Resolution::Attack(AttackEvent { attacker: intent.entity, target }),
        None => if blocks.any_in(occupants) {
            Resolution::Discarded
        } else {
            Resolution::Move(MoveEvent { entity: intent.entity, position: intent.want.position })
        },
    }
}

/// Resolves the requests of one cycle in order and takes every one of them
/// off the list, whatever became of it. A request never moves anybody by
/// itself: it yields an attack event, a move event, or nothing.
pub fn handle_want_to_move(
    index: &GridIndex,
    intents: &mut Vec<Intent>,
    victims: &EntitySet,
    blocks: &EntitySet,
) -> (events: Resolved)
    ensures
        final(intents)@.len() == 0,
        events.attacks@ == attacks_of(index, old(intents)@, victims@, blocks@),
        events.moves@ == moves_of(index, old(intents)@, victims@, blocks@),
{
    let mut attacks: Vec<AttackEvent> = Vec::new();
    let mut moves: Vec<MoveEvent> = Vec::new();
    let mut i: usize = 0;
    while i < intents.len()
        invariant
            i <= intents.len(),
            intents@ == old(intents)@,
            attacks@ == attacks_of(index, intents@.take(i as int), victims@, blocks@),
            moves@ == moves_of(index, intents@.take(i as int), victims@, blocks@),
        decreases intents.len() - i,
    {
        assert(intents@.take(i + 1).drop_last() =~= intents@.take(i as int));
        match resolve_intent(index, &intents[i], victims, blocks) {
            Resolution::Attack(event) => {
                attacks.push(event);
            },
            Resolution::Move(event) => {
                moves.push(event);
            },
            Resolution::Discarded => {},
        }
        i += 1;
    }
    assert(intents@.take(i as int) =~= intents@);
    intents.clear();
    Resolved { attacks, moves }
}

/// The entities of a list of movers, in order.
pub open spec fn mover_ids(actors: Seq<Mover>) -> Seq<Entity> {
    actors.map_values(|m: Mover| m.entity)
}

/// The movers after one accepted move: the entity stands on its new cell and
/// has spent its energy. The first entry of an entity stands for it; a move
/// of an entity that is not on the list changes nothing.
pub open spec fn after_move(actors: Seq<Mover>, event: MoveEvent) -> Seq<Mover> {
    match mover_ids(actors).index_of_first(event.entity) {
        Some(i) => actors.update(i, Mover { position: event.position, energy: Energy(0), ..actors[i] }),
        None => actors,
    }
}

/// The movers after the accepted moves of `events`, applied in order.
pub open spec fn after_moves(actors: Seq<Mover>, events: Seq<MoveEvent>) -> Seq<Mover>
    decreases events.len(),
{
    if events.len() == 0 {
        actors
    } else {
        after_move(after_moves(actors, events.drop_last()), events.last())
    }
}

fn find_mover(actors: &Vec<Mover>, entity: Entity) -> (found: Option<usize>)
    ensures
        match found {
            Some(i) => i < actors.len() && mover_ids(actors@).index_of_first(entity) == Some(i as int),
            None => mover_ids(actors@).index_of_first(entity).is_none(),
        },
{
    let ghost ids = mover_ids(actors@);
    let mut i: usize = 0;
    while i < actors.len()
        invariant
            i <= actors.len(),
            ids == mover_ids(actors@),
            forall|j: int| 0 <= j < i ==> ids[j] != entity,
        decreases actors.len() - i,
    {
        if actors[i].entity == entity {
            proof {
                assert(ids[i as int] == entity);
                ids.index_of_first_ensures(entity);
            }
            return Some(i);
        }
        i += 1;
    }
    proof {
        ids.index_of_first_ensures(entity);
    }
    None
}

/// Carries out the accepted moves in order: each puts its entity on the new
/// cell and uses up the entity's energy.
pub fn movement(move_events: &Vec<MoveEvent>, actors: &mut Vec<Mover>)
    ensures
        final(actors)@ == after_moves(old(actors)@, move_events@),
{
    let mut i: usize = 0;
    while i < move_events.len()
        invariant
            i <= move_events.len(),
            actors@ == after_moves(old(actors)@, move_events@.take(i as int)),
        decreases move_events.len() - i,
    {
        assert(move_events@.take(i + 1).drop_last() =~= move_events@.take(i as int));
        let event = move_events[i];
        match find_mover(actors, event.entity) {
            Some(at) => {
                let mover = actors[at];
                actors[at] = Mover { position: event.position, energy: Energy(0), ..mover };
            },
            None => {},
        }
        i += 1;
    }
    assert(move_events@.take(i as int) =~= move_events@);
}

} // verus!
