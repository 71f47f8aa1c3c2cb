//! A set of entities with constant-time lookup.

use vstd::prelude::*;
use std::collections::HashSet;
use crate::components::Entity;

verus! {

broadcast use vstd::std_specs::hash::group_hash_axioms;

/// The first entity of `list` that is in `set`.
pub open spec fn first_member(list: Seq<Entity>, set: Set<Entity>) -> Option<Entity>
    decreases list.len(),
{
    if list.len() == 0 {
        None
    } else if set.contains(list[0]) {
        Some(list[0])
    } else {
        first_member(list.drop_first(), set)
    }
}

/// Whether some entity of `list` is in `set`.
pub open spec fn any_member(list: Seq<Entity>, set: Set<Entity>) -> bool {
    exists|i: int| 0 <= i < list.len() && set.contains(#[trigger] list[i])
}

proof fn lemma_first_member_skips(list: Seq<Entity>, set: Set<Entity>, i: int)
    requires
        0 <= i <= list.len(),
        forall|j: int| 0 <= j < i ==> !set.contains(#[trigger] list[j]),
    ensures
        first_member(list, set) == first_member(list.subrange(i, list.len() as int), set),
    decreases i,
{
    if i == 0 {
        assert(list.subrange(0, list.len() as int) =~= list);
    } else {
        lemma_first_member_skips(list, set, i - 1);
        let tail = list.subrange(i - 1, list.len() as int);
        assert(tail[0] == list[i - 1]);
        assert(tail.drop_first() =~= list.subrange(i, list.len() as int));
    }
}

/// The first member of a list and the presence of any member go together.
pub proof fn lemma_first_member_is_some(list: Seq<Entity>, set: Set<Entity>)
    ensures
        first_member(list, set).is_some() <==> any_member(list, set),
        first_member(list, set) matches Some(e) ==> set.contains(e) && list.contains(e),
    decreases list.len(),
{
    if list.len() > 0 {
        if set.contains(list[0]) {
            assert(list.contains(list[0]));
        } else {
            let rest = list.drop_first();
            lemma_first_member_is_some(rest, set);
            if any_member(rest, set) {
                let i = choose|i: int| 0 <= i < rest.len() && set.contains(#[trigger] rest[i]);
                assert(set.contains(list[i + 1]));
            }
            if any_member(list, set) {
                let i = choose|i: int| 0 <= i < list.len() && set.contains(#[trigger] list[i]);
                assert(set.contains(rest[i - 1]));
            }
            if let Some(e) = first_member(rest, set) {
                let i = choose|i: int| 0 <= i < rest.len() && rest[i] == e;
                assert(list[i + 1] == e);
            }
        }
    }
}

/// The entities that share some trait: those with hit points, those that
/// block movement, and the like.
pub struct EntitySet {
    ids: HashSet<u64>,
}

impl EntitySet {
    /// The entities in the set.
    pub closed spec fn view(&self) -> Set<Entity> {
        Set::new(|e: Entity| self.ids@.contains(e.id))
    }

    /// The empty set.
    pub fn new() -> (set: Self)
        ensures
            set@ == Set::<Entity>::empty(),
    {
        let set = EntitySet { ids: HashSet::new() };
        assert(set@ =~= Set::<Entity>::empty());
        set
    }

    /// Adds `entity` to the set.
    pub fn insert(&mut self, entity: Entity)
        ensures
            final(self)@ == old(self)@.insert(entity),
    {
        self.ids.insert(entity.id);
        assert forall|e: Entity| self@.contains(e) == old(self)@.insert(entity).contains(e) by {
            assert(e == entity <==> e.id == entity.id);
        }
        assert(self@ =~= old(self)@.insert(entity));
    }

    /// Whether `entity` is in the set.
    pub fn contains(&self, entity: &Entity) -> (found: bool)
        ensures
            found == self@.contains(*entity),
    {
        self.ids.contains(&entity.id)
    }

    /// The first entity of `list` that is in the set.
    pub fn first_in(&self, list: &Vec<Entity>) -> (found: Option<Entity>)
        ensures
            found == first_member(list@, self@),
    {
        let mut i: usize = 0;
        while i < list.len()
            invariant
                i <= list.len(),
                forall|j: int| 0 <= j < i ==> !self@.contains(#[trigger] list@[j]),
            decreases list.len() - i,
        {
            if self.contains(&list[i]) {
                proof {
                    lemma_first_member_skips(list@, self@, i as int);
                    assert(list@.subrange(i as int, list@.len() as int)[0] == list@[i as int]);
                }
                return Some(list[i]);
            }
            i += 1;
        }
        proof {
            lemma_first_member_skips(list@, self@, i as int);
            assert(list@.subrange(i as int, list@.len() as int).len() == 0);
        }
        None
    }

    /// Whether some entity of `list` is in the set.
    pub fn any_in(&self, list: &Vec<Entity>) -> (found: bool)
        ensures
            found == any_member(list@, self@),
    {
        let mut i: usize = 0;
        while i < list.len()
            invariant
                i <= list.len(),
                forall|j: int| 0 <= j < i ==> !self@.contains(#[trigger] list@[j]),
            decreases list.len() - i,
        {
            if self.contains(&list[i]) {
                return true;
            }
            i += 1;
        }
        false
    }

    /// The set of the entities on `list`.
    pub fn from_entities(list: &Vec<Entity>) -> (set: Self)
        ensures
            set@ == list@.to_set(),
    {
        let mut set = EntitySet::new();
        let mut i: usize = 0;
        while i < list.len()
            invariant
                i <= list.len(),
                set@ == list@.take(i as int).to_set(),
            decreases list.len() - i,
        {
            set.insert(list[i]);
            proof {
                let seen = list@.take(i as int);
                let next = list@.take(i + 1);
                assert forall|e: Entity| seen.to_set().insert(list@[i as int]).contains(e) == next.to_set().contains(
                    e,
                ) by {
                    if seen.contains(e) {
                        let j = choose|j: int| 0 <= j < seen.len() && seen[j] == e;
                        assert(next[j] == e);
                    }
                    if next.contains(e) {
                        let j = choose|j: int| 0 <= j < next.len() && next[j] == e;
                        if j < i {
                            assert(seen[j] == e);
                        }
                    }
                    if e == list@[i as int] {
                        assert(next[i as int] == e);
                    }
                }
                assert(set@ =~= next.to_set());
            }
            i += 1;
        }
        assert(list@.take(i as int) =~= list@);
        set
    }
}

} // verus!
