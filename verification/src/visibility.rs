//! What an observer sees: the cells in its field of view, and the marks that
//! seeing leaves on the entities standing there.

use vstd::prelude::*;
use crate::components::{Entity, Fov, Position};
use crate::entity_set::EntitySet;
use crate::grid::GridIndex;

verus! {

/// The marks of one entity: whether it is in view now, whether it has ever
/// been seen, and whether it is of a kind that is never remembered.
#[derive(Clone, Copy, Debug, PartialEq, Eq, Structural)]
pub struct Sighting {
    pub entity: Entity,
    pub visible: bool,
    pub revealed: bool,
    pub unrevealable: bool,
}

/// The cells of `seen` that lie on the grid, each once, in the order in which
/// `seen` first names them.
pub open spec fn cells_in_view(index: &GridIndex, seen: Seq<Position>) -> Seq<Position>
    decreases seen.len(),
{
    if seen.len() == 0 {
        Seq::empty()
    } else {
        let earlier = cells_in_view(index, seen.drop_last());
        if index.in_bounds(seen.last()) && !earlier.contains(seen.last()) {
            earlier.push(seen.last())
        } else {
            earlier
        }
    }
}

/// The cells in view are exactly the cells of `seen` that lie on the grid,
/// and none of them is listed twice.
pub proof fn lemma_cells_in_view(index: &GridIndex, seen: Seq<Position>)
    ensures
        cells_in_view(index, seen).no_duplicates(),
        forall|at: Position| #[trigger]
            cells_in_view(index, seen).contains(at) <==> seen.contains(at) && index.in_bounds(at),
    decreases seen.len(),
{
    if seen.len() > 0 {
        let rest = seen.drop_last();
        let earlier = cells_in_view(index, rest);
        let now = cells_in_view(index, seen);
        lemma_cells_in_view(index, rest);
        assert forall|at: Position| #[trigger] now.contains(at) <==> seen.contains(at) && index.in_bounds(at) by {
            if now.contains(at) {
                let k = choose|k: int| 0 <= k < now.len() && now[k] == at;
                if k < earlier.len() {
                    assert(earlier[k] == at);
                    assert(earlier.contains(at));
                    assert(rest.contains(at));
                    let j = choose|j: int| 0 <= j < rest.len() && rest[j] == at;
                    assert(seen[j] == at);
                } else {
                    assert(seen[seen.len() - 1] == at);
                }
            }
            if seen.contains(at) && index.in_bounds(at) {
                let j = choose|j: int| 0 <= j < seen.len() && seen[j] == at;
                if j < rest.len() {
                    assert(rest[j] == at);
                    assert(rest.contains(at));
                    assert(earlier.contains(at));
                    let k = choose|k: int| 0 <= k < earlier.len() && earlier[k] == at;
                    assert(now[k] == at);
                } else if earlier.contains(at) {
                    let k = choose|k: int| 0 <= k < earlier.len() && earlier[k] == at;
                    assert(now[k] == at);
                } else {
                    assert(now[now.len() - 1] == at);
                }
            }
        }
    }
}

fn is_listed(list: &Vec<Position>, at: &Position) -> (found: bool)
    ensures
        found == list@.contains(*at),
{
    let mut i: usize = 0;
    while i < list.len()
        invariant
            i <= list.len(),
            forall|j: int| 0 <= j < i ==> list@[j] != *at,
        decreases list.len() - i,
    {
        if list[i].x == at.x && list[i].y == at.y {
            assert(list@[i as int] == *at);
            return true;
        }
        i += 1;
    }
    false
}

/// Takes a fresh field of view for an observer that has moved: the cells of
/// `seen`, as a sweep from the observer's cell found them, that lie on the
/// grid. What was in view before counts for nothing.
pub fn update_fov(index: &GridIndex, fov: &mut Fov, seen: &Vec<Position>)
    ensures
        final(fov).range == old(fov).range,
        final(fov).visible_tiles@ == cells_in_view(index, seen@),
        final(fov).is_valid(),
        forall|at: Position| #[trigger]
            final(fov).visible().contains(at) <==> seen@.contains(at) && index.in_bounds(at),
{
    let mut kept: Vec<Position> = Vec::new();
    let mut i: usize = 0;
    while i < seen.len()
        invariant
            i <= seen.len(),
            kept@ == cells_in_view(index, seen@.take(i as int)),
        decreases seen.len() - i,
    {
        assert(seen@.take(i + 1).drop_last() =~= seen@.take(i as int));
        let at = seen[i];
        if index.is_in_bounds(&at) && !is_listed(&kept, &at) {
            kept.push(at);
        }
        i += 1;
    }
    proof {
        assert(seen@.take(i as int) =~= seen@);
        lemma_cells_in_view(index, seen@);
    }
    fov.visible_tiles = kept;
}

/// The entities that stand on a cell in view.
pub open spec fn entities_in_view(index: &GridIndex, cells: Seq<Position>) -> Set<Entity> {
    Set::new(
        |e: Entity|
            exists|i: int| 0 <= i < cells.len() && index.occupants_at(#[trigger] cells[i]).contains(e),
    )
}

/// An entity's marks after a look around: it is visible exactly if it stands
/// on a cell in view; once seen it stays revealed, unless it is of a kind
/// that is never remembered.
pub open spec fn after_look(mark: Sighting, in_view: bool) -> Sighting {
    Sighting {
        visible: in_view,
        revealed: mark.revealed || (in_view && !mark.unrevealable),
        ..mark
    }
}

/// Collects the entities that stand on the cells of `cells`.
pub fn collect_in_view(index: &GridIndex, cells: &Vec<Position>) -> (found: EntitySet)
    ensures
        found@ == entities_in_view(index, cells@),
{
    let mut found = EntitySet::new();
    let mut i: usize = 0;
    assert(found@ =~= entities_in_view(index, cells@.take(0)));
    while i < cells.len()
        invariant
            i <= cells.len(),
            found@ == entities_in_view(index, cells@.take(i as int)),
        decreases cells.len() - i,
    {
        let ghost seen = cells@.take(i as int);
        let ghost next = cells@.take(i + 1);
        let ghost before = found@;
        let ghost here = index.occupants_at(cells@[i as int]);
        match index.occupants(&cells[i]) {
            Some(list) => {
                let mut k: usize = 0;
                while k < list.len()
                    invariant
                        k <= list.len(),
                        list@ == here,
                        found@ == before.union(list@.take(k as int).to_set()),
                    decreases list.len() - k,
                {
                    found.insert(list[k]);
                    proof {
                        let done = list@.take(k as int);
                        let more = list@.take(k + 1);
                        assert forall|e: Entity| more.to_set().contains(e) == done.to_set().insert(
                            list@[k as int],
                        ).contains(e) by {
                            if more.contains(e) {
                                let j = choose|j: int| 0 <= j < more.len() && more[j] == e;
                                if j < k {
                                    assert(done[j] == e);
                                }
                            }
                            if done.contains(e) {
                                let j = choose|j: int| 0 <= j < done.len() && done[j] == e;
                                assert(more[j] == e);
                            }
                            if e == list@[k as int] {
                                assert(more[k as int] == e);
                            }
                        }
                        assert(found@ =~= before.union(more.to_set()));
                    }
                    k += 1;
                }
                assert(list@.take(k as int) =~= list@);
            },
            None => {
                assert(here.to_set() =~= Set::<Entity>::empty());
                assert(found@ =~= before.union(here.to_set()));
            },
        }
        proof {
            assert(found@ == before.union(here.to_set()));
            assert forall|e: Entity| found@.contains(e) == entities_in_view(index, next).contains(e) by {
                if entities_in_view(index, seen).contains(e) {
                    let j = choose|j: int| 0 <= j < seen.len() && index.occupants_at(#[trigger] seen[j]).contains(e);
                    assert(next[j] == seen[j]);
                }
                if here.contains(e) {
                    assert(next[i as int] == cells@[i as int]);
                }
                if entities_in_view(index, next).contains(e) {
                    let j = choose|j: int| 0 <= j < next.len() && index.occupants_at(#[trigger] next[j]).contains(e);
                    if j < i {
                        assert(seen[j] == next[j]);
                    }
                }
            }
            assert(found@ =~= entities_in_view(index, next));
        }
        i += 1;
    }
    assert(cells@.take(i as int) =~= cells@);
    found
}

/// Brings the marks of all entities up to date with a field of view: every
/// entity on a cell in view becomes visible and, unless it is never
/// remembered, revealed; every other entity stops being visible and keeps
/// what it had of being revealed.
pub fn update_visibility(index: &GridIndex, fov: &Fov, marks: &mut Vec<Sighting>)
    ensures
        final(marks)@.len() == old(marks)@.len(),
        forall|i: int|
            0 <= i < old(marks)@.len() ==> #[trigger] final(marks)@[i] == after_look(
                old(marks)@[i],
                entities_in_view(index, fov.visible_tiles@).contains(old(marks)@[i].entity),
            ),
{
    let in_view = collect_in_view(index, &fov.visible_tiles);
    let n = marks.len();
    let mut i: usize = 0;
    while i < n
        invariant
            i <= n,
            n == marks.len(),
            n == old(marks)@.len(),
            in_view@ == entities_in_view(index, fov.visible_tiles@),
            forall|j: int|
                0 <= j < i ==> #[trigger] marks@[j] == after_look(
                    old(marks)@[j],
                    in_view@.contains(old(marks)@[j].entity),
                ),
            forall|j: int| i <= j < n ==> #[trigger] marks@[j] == old(marks)@[j],
        decreases n - i,
    {
        let mark = marks[i];
        let seen = in_view.contains(&mark.entity);
        marks[i] = Sighting {
            entity: mark.entity,
            visible: seen,
            revealed: mark.revealed || (seen && !mark.unrevealable),
            unrevealable: mark.unrevealable,
        };
        i += 1;
    }
}

/// Being revealed is for good: whatever comes into view or goes out of it,
/// an entity that was revealed before a look around is revealed after it.
pub proof fn lemma_revealed_is_kept(mark: Sighting, in_view: bool)
    ensures
        mark.revealed ==> after_look(mark, in_view).revealed,
        after_look(mark, in_view).visible == in_view,
        in_view && !mark.unrevealable ==> after_look(mark, in_view).revealed,
{
}

} // verus!
