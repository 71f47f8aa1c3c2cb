//! What holds of the steps that the index offers to path finding.

use vstd::prelude::*;
use vstd::arithmetic::div_mod::lemma_fundamental_div_mod_converse;
use crate::components::Position;
use crate::grid::{Exit, GridIndex};

verus! {

/// The distance between two cells in steps, a diagonal step counting as one:
/// the larger of the distances along the two axes.
pub open spec fn steps_apart(a: Position, b: Position) -> int {
    let across = if a.x >= b.x {
        a.x - b.x
    } else {
        b.x - a.x
    };
    let along = if a.y >= b.y {
        a.y - b.y
    } else {
        b.y - a.y
    };
    if across >= along {
        across
    } else {
        along
    }
}

/// Whether the index offers a step from the cell with index `from` to the
/// cell with index `to`.
pub open spec fn is_step(index: &GridIndex, from: int, to: int) -> bool {
    exists|e: Exit| #[trigger] index.exits_from(from).contains(e) && e.index == to
}

/// Whether every cell of `path` is one step from the cell before it.
pub open spec fn is_path(index: &GridIndex, path: Seq<int>) -> bool {
    &&& path.len() >= 1
    &&& forall|i: int| 0 <= i < path.len() - 1 ==> is_step(index, #[trigger] path[i], path[i + 1])
}

/// Whether something blocks movement on every cell of the grid that is one
/// step from `target`.
pub open spec fn is_walled_in(index: &GridIndex, target: Position) -> bool {
    forall|near: Position|
        index.in_bounds(near) && steps_apart(target, near) == 1 ==> #[trigger] index.blocked_cells().contains(
            near,
        )
}

/// Whether nothing blocks movement on any cell of the grid.
pub open spec fn is_open(index: &GridIndex) -> bool {
    forall|at: Position| index.in_bounds(at) ==> !#[trigger] index.blocked_cells().contains(at)
}

proof fn lemma_cell_of_index(index: &GridIndex, x: int, y: int)
    requires
        index.is_sized(),
        0 <= x < index.spec_width(),
        0 <= y < index.spec_height(),
    ensures
        0 <= y * index.spec_width() + x < index.spec_width() * index.spec_height(),
        index.cell_of(y * index.spec_width() + x) == Some(Position { x: x as i32, y: y as i32 }),
        index.index_of(Position { x: x as i32, y: y as i32 }) == Some(y * index.spec_width() + x),
{
    let w = index.spec_width() as int;
    let h = index.spec_height() as int;
    assert(0 <= y * w + x < w * h) by (nonlinear_arith)
        requires
            0 <= x < w,
            0 <= y < h,
    ;
    lemma_fundamental_div_mod_converse(y * w + x, w, y, x);
}

proof fn lemma_index_of_cell(index: &GridIndex, idx: int)
    requires
        index.is_sized(),
        index.cell_of(idx).is_some(),
    ensures
        index.in_bounds(index.cell_of(idx).unwrap()),
        index.index_of(index.cell_of(idx).unwrap()) == Some(idx),
{
    let w = index.spec_width() as int;
    let h = index.spec_height() as int;
    assert(w > 0) by (nonlinear_arith)
        requires
            0 <= idx < w * h,
            w >= 0,
            h >= 0,
    ;
    assert(0 <= idx / w < h && 0 <= idx % w < w && (idx / w) * w + idx % w == idx) by (nonlinear_arith)
        requires
            0 <= idx < w * h,
            w > 0,
            h >= 0,
    ;
}

proof fn lemma_in_sum(a: Seq<Exit>, b: Seq<Exit>, e: Exit)
    ensures
        (a + b).contains(e) <==> a.contains(e) || b.contains(e),
{
    if a.contains(e) {
        let i = choose|i: int| 0 <= i < a.len() && a[i] == e;
        assert((a + b)[i] == e);
    }
    if b.contains(e) {
        let i = choose|i: int| 0 <= i < b.len() && b[i] == e;
        assert((a + b)[a.len() + i] == e);
    }
    if (a + b).contains(e) {
        let i = choose|i: int| 0 <= i < (a + b).len() && (a + b)[i] == e;
        if i < a.len() {
            assert(a[i] == e);
        } else {
            assert(b[i - a.len()] == e);
        }
    }
}

proof fn lemma_in_exit(index: &GridIndex, x: int, y: int, diagonal: bool, e: Exit)
    ensures
        index.exit_to(x, y, diagonal).contains(e) <==> index.can_enter(x, y) && e == (Exit {
            index: (y * index.spec_width() + x) as usize,
            diagonal,
        }),
{
    let s = index.exit_to(x, y, diagonal);
    if index.can_enter(x, y) {
        assert(s[0] == Exit { index: (y * index.spec_width() + x) as usize, diagonal });
    }
}

/// Whether `e` is the step from the cell `(x, y)` by `(dx, dy)`.
spec fn is_exit_by(index: &GridIndex, x: int, y: int, dx: int, dy: int, e: Exit) -> bool {
    index.can_enter(x + dx, y + dy) && e == Exit {
        index: ((y + dy) * index.spec_width() + (x + dx)) as usize,
        diagonal: dx != 0 && dy != 0,
    }
}

proof fn lemma_exits(index: &GridIndex, from: int, e: Exit)
    ensures
        index.exits_from(from).contains(e) <==> (match index.cell_of(from) {
            Some(c) => is_exit_by(index, c.x as int, c.y as int, -1, 0, e) || is_exit_by(
                index,
                c.x as int,
                c.y as int,
                1,
                0,
                e,
            ) || is_exit_by(index, c.x as int, c.y as int, 0, -1, e) || is_exit_by(
                index,
                c.x as int,
                c.y as int,
                0,
                1,
                e,
            ) || is_exit_by(index, c.x as int, c.y as int, -1, -1, e) || is_exit_by(
                index,
                c.x as int,
                c.y as int,
                1,
                -1,
                e,
            ) || is_exit_by(index, c.x as int, c.y as int, -1, 1, e) || is_exit_by(
                index,
                c.x as int,
                c.y as int,
                1,
                1,
                e,
            ),
            None => false,
        }),
{
    match index.cell_of(from) {
        None => {},
        Some(c) => {
            let x = c.x as int;
            let y = c.y as int;
            let s1 = index.exit_to(x - 1, y, false);
            let s2 = index.exit_to(x + 1, y, false);
            let s3 = index.exit_to(x, y - 1, false);
            let s4 = index.exit_to(x, y + 1, false);
            let s5 = index.exit_to(x - 1, y - 1, true);
            let s6 = index.exit_to(x + 1, y - 1, true);
            let s7 = index.exit_to(x - 1, y + 1, true);
            let s8 = index.exit_to(x + 1, y + 1, true);
            assert(index.exits_from(from) == s1 + s2 + s3 + s4 + s5 + s6 + s7 + s8);
            lemma_in_sum(s1 + s2 + s3 + s4 + s5 + s6 + s7, s8, e);
            lemma_in_sum(s1 + s2 + s3 + s4 + s5 + s6, s7, e);
            lemma_in_sum(s1 + s2 + s3 + s4 + s5, s6, e);
            lemma_in_sum(s1 + s2 + s3 + s4, s5, e);
            lemma_in_sum(s1 + s2 + s3, s4, e);
            lemma_in_sum(s1 + s2, s3, e);
            lemma_in_sum(s1, s2, e);
            lemma_in_exit(index, x - 1, y, false, e);
            lemma_in_exit(index, x + 1, y, false, e);
            lemma_in_exit(index, x, y - 1, false, e);
            lemma_in_exit(index, x, y + 1, false, e);
            lemma_in_exit(index, x - 1, y - 1, true, e);
            lemma_in_exit(index, x + 1, y - 1, true, e);
            lemma_in_exit(index, x - 1, y + 1, true, e);
            lemma_in_exit(index, x + 1, y + 1, true, e);
        },
    }
}

/// A step leads from a cell of the grid to a cell of the grid next to it on
/// which nothing blocks movement.
pub proof fn lemma_step_enters_a_free_neighbour(index: &GridIndex, from: int, to: int)
    requires
        index.is_sized(),
        is_step(index, from, to),
    ensures
        index.cell_of(from).is_some(),
        index.cell_of(to).is_some(),
        index.in_bounds(index.cell_of(from).unwrap()),
        index.in_bounds(index.cell_of(to).unwrap()),
        steps_apart(index.cell_of(from).unwrap(), index.cell_of(to).unwrap()) == 1,
        !index.blocked_cells().contains(index.cell_of(to).unwrap()),
{
    let e = choose|e: Exit| #[trigger] index.exits_from(from).contains(e) && e.index == to;
    lemma_exits(index, from, e);
    lemma_index_of_cell(index, from);
    let c = index.cell_of(from).unwrap();
    let x = c.x as int;
    let y = c.y as int;
    let (dx, dy): (int, int) = if is_exit_by(index, x, y, -1, 0, e) {
        (-1, 0)
    } else if is_exit_by(index, x, y, 1, 0, e) {
        (1, 0)
    } else if is_exit_by(index, x, y, 0, -1, e) {
        (0, -1)
    } else if is_exit_by(index, x, y, 0, 1, e) {
        (0, 1)
    } else if is_exit_by(index, x, y, -1, -1, e) {
        (-1, -1)
    } else if is_exit_by(index, x, y, 1, -1, e) {
        (1, -1)
    } else if is_exit_by(index, x, y, -1, 1, e) {
        (-1, 1)
    } else {
        (1, 1)
    };
    assert(is_exit_by(index, x, y, dx, dy, e));
    lemma_cell_of_index(index, x + dx, y + dy);
}

/// From a cell of the grid there is a step to every cell of the grid next to
/// it on which nothing blocks movement.
pub proof fn lemma_free_neighbour_is_a_step(index: &GridIndex, from: Position, to: Position)
    requires
        index.is_sized(),
        index.in_bounds(from),
        index.in_bounds(to),
        steps_apart(from, to) == 1,
        !index.blocked_cells().contains(to),
    ensures
        is_step(index, index.index_of(from).unwrap(), index.index_of(to).unwrap()),
{
    let w = index.spec_width() as int;
    let idx = from.y * w + from.x;
    lemma_cell_of_index(index, from.x as int, from.y as int);
    lemma_cell_of_index(index, to.x as int, to.y as int);
    let dx = to.x - from.x;
    let dy = to.y - from.y;
    let e = Exit { index: (to.y * w + to.x) as usize, diagonal: dx != 0 && dy != 0 };
    assert(is_exit_by(index, from.x as int, from.y as int, dx, dy, e));
    lemma_exits(index, idx, e);
    assert(index.exits_from(idx).contains(e) && e.index == to.y * w + to.x);
}

proof fn lemma_detour(a: Position, b: Position, c: Position)
    ensures
        steps_apart(a, c) <= steps_apart(a, b) + steps_apart(b, c),
{
}

/// A path is never shorter than the distance it covers: from its first cell
/// to its last it takes at least as many steps as the two are apart.
pub proof fn lemma_path_covers_the_distance(index: &GridIndex, path: Seq<int>)
    requires
        index.is_sized(),
        is_path(index, path),
        path.len() >= 2,
    ensures
        index.cell_of(path.first()).is_some(),
        index.cell_of(path.last()).is_some(),
        path.len() - 1 >= steps_apart(index.cell_of(path.first()).unwrap(), index.cell_of(path.last()).unwrap()),
    decreases path.len(),
{
    let n = path.len() as int;
    assert(is_step(index, path[n - 2], path[n - 2 + 1]));
    lemma_step_enters_a_free_neighbour(index, path[n - 2], path[n - 1]);
    if n > 2 {
        let shorter = path.drop_last();
        assert forall|i: int| 0 <= i < shorter.len() - 1 implies is_step(index, #[trigger] shorter[i], shorter[i + 1]) by {
            assert(is_step(index, path[i], path[i + 1]));
        }
        lemma_path_covers_the_distance(index, shorter);
        lemma_detour(
            index.cell_of(path[0]).unwrap(),
            index.cell_of(path[n - 2]).unwrap(),
            index.cell_of(path[n - 1]).unwrap(),
        );
    }
}

/// A cell that is walled in is reached from next door only: a path that ends
/// on it starts on a cell beside it and takes that one step.
pub proof fn lemma_walled_in_cell_is_out_of_reach(index: &GridIndex, target: Position, path: Seq<int>)
    requires
        index.is_sized(),
        index.in_bounds(target),
        is_walled_in(index, target),
        is_path(index, path),
        path.len() >= 2,
        Some(path.last()) == index.index_of(target),
    ensures
        path.len() == 2,
        index.cell_of(path.first()).is_some(),
        steps_apart(index.cell_of(path.first()).unwrap(), target) == 1,
{
    let n = path.len() as int;
    lemma_cell_of_index(index, target.x as int, target.y as int);
    assert(is_step(index, path[n - 2], path[n - 2 + 1]));
    lemma_step_enters_a_free_neighbour(index, path[n - 2], path[n - 1]);
    let beside = index.cell_of(path[n - 2]).unwrap();
    assert(index.blocked_cells().contains(beside));
    if n > 2 {
        assert(is_step(index, path[n - 3], path[n - 3 + 1]));
        lemma_step_enters_a_free_neighbour(index, path[n - 3], path[n - 2]);
    }
}

/// The cell one step from `from` towards `to`.
spec fn towards(from: Position, to: Position) -> Position {
    Position {
        x: if to.x > from.x {
            (from.x + 1) as i32
        } else if to.x < from.x {
            (from.x - 1) as i32
        } else {
            from.x
        },
        y: if to.y > from.y {
            (from.y + 1) as i32
        } else if to.y < from.y {
            (from.y - 1) as i32
        } else {
            from.y
        },
    }
}

/// The path that heads for `to` with every step.
spec fn beeline(index: &GridIndex, from: Position, to: Position) -> Seq<int>
    decreases steps_apart(from, to),
{
    if steps_apart(from, to) <= 0 {
        seq![index.index_of(from).unwrap()]
    } else {
        seq![index.index_of(from).unwrap()] + beeline(index, towards(from, to), to)
    }
}

proof fn lemma_beeline(index: &GridIndex, from: Position, to: Position)
    requires
        index.is_sized(),
        is_open(index),
        index.in_bounds(from),
        index.in_bounds(to),
    ensures
        is_path(index, beeline(index, from, to)),
        beeline(index, from, to).first() == index.index_of(from).unwrap(),
        beeline(index, from, to).last() == index.index_of(to).unwrap(),
        beeline(index, from, to).len() - 1 == steps_apart(from, to),
    decreases steps_apart(from, to),
{
    if steps_apart(from, to) > 0 {
        let next = towards(from, to);
        lemma_beeline(index, next, to);
        lemma_free_neighbour_is_a_step(index, from, next);
        let rest = beeline(index, next, to);
        let path = beeline(index, from, to);
        assert(path == seq![index.index_of(from).unwrap()] + rest);
        assert forall|i: int| 0 <= i < path.len() - 1 implies is_step(index, #[trigger] path[i], path[i + 1]) by {
            if i == 0 {
                assert(path[1] == rest[0]);
            } else {
                assert(path[i] == rest[i - 1]);
                assert(path[i + 1] == rest[i - 1 + 1]);
                assert(is_step(index, rest[i - 1], rest[i - 1 + 1]));
            }
        }
        assert(path.last() == rest.last());
    }
}

/// On a grid without blockers any two cells are joined by a path of exactly
/// as many steps as they are apart; by `lemma_path_covers_the_distance` no
/// path between them is shorter.
pub proof fn lemma_open_grid_is_crossed_straight(index: &GridIndex, from: Position, to: Position)
    requires
        index.is_sized(),
        is_open(index),
        index.in_bounds(from),
        index.in_bounds(to),
    ensures
        exists|path: Seq<int>|
            {
                &&& #[trigger] is_path(index, path)
                &&& Some(path.first()) == index.index_of(from)
                &&& Some(path.last()) == index.index_of(to)
                &&& path.len() - 1 == steps_apart(from, to)
            },
{
    lemma_beeline(index, from, to);
    assert(is_path(index, beeline(index, from, to)));
}

} // verus!
