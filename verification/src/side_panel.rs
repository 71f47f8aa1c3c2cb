//! What the status panel shows of the world: the entities in view, nearest first.

use vstd::prelude::*;
use itertools::Itertools;
use crate::components::{spec_distance_squared, Entity, Fov, Position};
use crate::grid::GridIndex;

verus! {

/// The entries of `cells` with distance `key`, in order.
pub open spec fn at_distance(cells: Seq<(u128, Position)>, key: u128) -> Seq<(u128, Position)> {
    cells.filter(|cell: (u128, Position)| cell.0 == key)
}

/// Whether `sorted` holds the entries of `cells` by ascending distance, with
/// entries of the same distance in the order that they have in `cells`.
pub open spec fn is_nearest_first(sorted: Seq<(u128, Position)>, cells: Seq<(u128, Position)>) -> bool {
    &&& sorted.len() == cells.len()
    &&& forall|i: int, j: int| 0 <= i <= j < sorted.len() ==> (#[trigger] sorted[i]).0 <= (#[trigger] sorted[j]).0
    &&& forall|key: u128| #[trigger] at_distance(sorted, key) == at_distance(cells, key)
}

/// `Itertools::sorted_by` collects the items and sorts them with
/// `slice::sort_by`, a stable sort: what comes out are the same entries in
/// ascending order of the distance that the comparison looks at, and entries
/// at the same distance keep their order.
#[verifier::external_body]
fn sort_nearest_first(cells: Vec<(u128, Position)>) -> (sorted: Vec<(u128, Position)>)
    ensures
        is_nearest_first(sorted@, cells@),
{
    cells.into_iter().sorted_by(|a, b| a.0.cmp(&b.0)).collect()
}

/// Whether `cells` pairs each of `positions`, in order, with the square of
/// its distance from `origin`.
pub open spec fn is_measured(cells: Seq<(u128, Position)>, positions: Seq<Position>, origin: Position) -> bool {
    &&& cells.len() == positions.len()
    &&& forall|i: int|
        0 <= i < cells.len() ==> (#[trigger] cells[i]).1 == positions[i] && cells[i].0 == spec_distance_squared(
            origin,
            positions[i],
        )
}

/// The entities on the cells of `order`, cell after cell, each cell's in the
/// order of the index.
pub open spec fn occupants_along(index: &GridIndex, order: Seq<(u128, Position)>) -> Seq<Entity>
    decreases order.len(),
{
    if order.len() == 0 {
        Seq::empty()
    } else {
        occupants_along(index, order.drop_last()) + index.occupants_at(order.last().1)
    }
}

/// Whether `list` holds the entities on `cells` in the order of `order`,
/// which takes the cells nearest to `origin` first and cells equally far in
/// the order of `cells`.
pub open spec fn is_view_from(
    list: Seq<Entity>,
    index: &GridIndex,
    cells: Seq<Position>,
    origin: Position,
    measured: Seq<(u128, Position)>,
    order: Seq<(u128, Position)>,
) -> bool {
    &&& is_measured(measured, cells, origin)
    &&& is_nearest_first(order, measured)
    &&& list == occupants_along(index, order)
}

fn measure(cells: &Vec<Position>, origin: &Position) -> (measured: Vec<(u128, Position)>)
    ensures
        is_measured(measured@, cells@, *origin),
{
    let mut measured: Vec<(u128, Position)> = Vec::new();
    let mut i: usize = 0;
    while i < cells.len()
        invariant
            i <= cells.len(),
            is_measured(measured@, cells@.take(i as int), *origin),
        decreases cells.len() - i,
    {
        let at = cells[i];
        let dx: i128 = origin.x as i128 - at.x as i128;
        let dy: i128 = origin.y as i128 - at.y as i128;
        assert(0 <= dx * dx <= 0x1_0000_0000 * 0x1_0000_0000) by (nonlinear_arith)
            requires
                -0x1_0000_0000 <= dx <= 0x1_0000_0000,
        ;
        assert(0 <= dy * dy <= 0x1_0000_0000 * 0x1_0000_0000) by (nonlinear_arith)
            requires
                -0x1_0000_0000 <= dy <= 0x1_0000_0000,
        ;
        measured.push(((dx * dx + dy * dy) as u128, at));
        i += 1;
    }
    assert(cells@.take(i as int) =~= cells@);
    measured
}

/// Lists the entities in view for the status panel: those nearest to
/// `player` first.
pub fn visible_entities(index: &GridIndex, fov: &Fov, player: &Position) -> (list: Vec<Entity>)
    ensures
        exists|measured: Seq<(u128, Position)>, order: Seq<(u128, Position)>| #[trigger]
            is_view_from(list@, index, fov.visible_tiles@, *player, measured, order),
{
    let measured = measure(&fov.visible_tiles, player);
    let ghost given = measured@;
    let sorted = sort_nearest_first(measured);
    let mut list: Vec<Entity> = Vec::new();
    let mut i: usize = 0;
    while i < sorted.len()
        invariant
            i <= sorted.len(),
            list@ == occupants_along(index, sorted@.take(i as int)),
        decreases sorted.len() - i,
    {
        assert(sorted@.take(i + 1).drop_last() =~= sorted@.take(i as int));
        let mut here = index.at_position(&sorted[i].1);
        list.append(&mut here);
        i += 1;
    }
    assert(sorted@.take(i as int) =~= sorted@);
    assert(is_view_from(list@, index, fov.visible_tiles@, *player, given, sorted@));
    list
}

} // verus!
