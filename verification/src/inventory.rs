//! The backpack menu: which item answers to which letter, and what a key
//! press in the menu chooses.

use vstd::prelude::*;
use crate::components::Entity;
use crate::items::Carried;

verus! {

/// The items of `items` that are in the backpack of `owner`, in order.
pub open spec fn carried_by(items: Seq<Carried>, owner: Entity) -> Seq<Entity>
    decreases items.len(),
{
    if items.len() == 0 {
        Seq::empty()
    } else if items.last().owner == Some(owner) {
        carried_by(items.drop_last(), owner).push(items.last().entity)
    } else {
        carried_by(items.drop_last(), owner)
    }
}

/// The place in the menu that `letter` stands for; the menu hands out the
/// letters `a` to `y`.
pub open spec fn slot_of(letter: char) -> Option<int> {
    if letter >= 'a' && 'z' > letter {
        Some(letter as int - 'a' as int)
    } else {
        None
    }
}

/// The item that `letter` picks from `backpack`.
pub open spec fn item_at_letter(backpack: Seq<Entity>, letter: char) -> Option<Entity> {
    match slot_of(letter) {
        Some(slot) => if slot < backpack.len() {
            Some(backpack[slot])
        } else {
            None
        },
        None => None,
    }
}

/// What a key press in the menu leads to.
#[derive(Clone, Copy, Debug, PartialEq, Eq, Structural)]
pub struct MenuOutcome {
    /// The item that was picked, if any.
    pub chosen: Option<Entity>,
    /// Whether the menu closes.
    pub close: bool,
}

/// The outcome of a key press: the letter typed picks its item, and the menu
/// closes on a pick and on escape.
pub open spec fn menu_outcome(backpack: Seq<Entity>, escape: bool, typed: Option<char>) -> MenuOutcome {
    let chosen = match typed {
        Some(letter) => item_at_letter(backpack, letter),
        None => None,
    };
    MenuOutcome { chosen, close: escape || chosen.is_some() }
}

/// Lists the backpack of `owner`, in the order of `items`.
pub fn backpack_of(items: &Vec<Carried>, owner: Entity) -> (backpack: Vec<Entity>)
    ensures
        backpack@ == carried_by(items@, owner),
{
    let mut backpack: Vec<Entity> = Vec::new();
    let mut i: usize = 0;
    while i < items.len()
        invariant
            i <= items.len(),
            backpack@ == carried_by(items@.take(i as int), owner),
        decreases items.len() - i,
    {
        assert(items@.take(i + 1).drop_last() =~= items@.take(i as int));
        match items[i].owner {
            Some(holder) => {
                if holder == owner {
                    backpack.push(items[i].entity);
                }
            },
            None => {},
        }
        i += 1;
    }
    assert(items@.take(i as int) =~= items@);
    backpack
}

/// The item that `letter` picks from `backpack`.
pub fn item_for_letter(backpack: &Vec<Entity>, letter: char) -> (item: Option<Entity>)
    ensures
        item == item_at_letter(backpack@, letter),
{
    if letter >= 'a' && 'z' > letter {
        let slot = (letter as u32 - 'a' as u32) as usize;
        if slot < backpack.len() {
            Some(backpack[slot])
        } else {
            None
        }
    } else {
        None
    }
}

/// Decides what a key press in the backpack menu leads to.
pub fn handle_menu_input(backpack: &Vec<Entity>, escape: bool, typed: Option<char>) -> (outcome: MenuOutcome)
    ensures
        outcome == menu_outcome(backpack@, escape, typed),
{
    let chosen = match typed {
        Some(letter) => item_for_letter(backpack, letter),
        None => None,
    };
    MenuOutcome { chosen, close: escape || chosen.is_some() }
}

} // verus!
