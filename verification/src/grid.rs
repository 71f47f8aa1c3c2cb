//! The grid index: who stands where, and which cells block sight or movement.
//! It is derived data, rebuilt from the positioned entities at the start of
//! every cycle and never patched in between.

use vstd::prelude::*;
use vstd::std_specs::convert::TryIntoSpec;
use std::collections::{HashMap, HashSet};
use crate::components::{Entity, Position};

verus! {

broadcast use vstd::std_specs::hash::group_hash_axioms;

/// One positioned entity, as the rebuild of the index meets it.
#[derive(Clone, Copy, Debug, PartialEq, Eq, Structural)]
pub struct Placed {
    pub entity: Entity,
    pub position: Position,
    pub blocker: bool,
    pub opaque: bool,
}

/// The entities of `placed` that stand at `at`, in the order of `placed`.
pub open spec fn occupants_of(placed: Seq<Placed>, at: Position) -> Seq<Entity>
    decreases placed.len(),
{
    if placed.len() == 0 {
        Seq::empty()
    } else if placed.last().position == at {
        occupants_of(placed.drop_last(), at).push(placed.last().entity)
    } else {
        occupants_of(placed.drop_last(), at)
    }
}

/// The cells on which an entity of `placed` blocks sight.
pub open spec fn opaque_of(placed: Seq<Placed>) -> Set<Position> {
    Set::new(
        |at: Position|
            exists|i: int| 0 <= i < placed.len() && (#[trigger] placed[i]).position == at && placed[i].opaque,
    )
}

/// The cells on which an entity of `placed` blocks movement.
pub open spec fn blockers_of(placed: Seq<Placed>) -> Set<Position> {
    Set::new(
        |at: Position|
            exists|i: int| 0 <= i < placed.len() && (#[trigger] placed[i]).position == at && placed[i].blocker,
    )
}

/// The key under which a cell is stored: its coordinates, each shifted to be
/// non-negative, side by side in one word.
spec fn cell_key(at: Position) -> u64 {
    ((at.x + 0x8000_0000) * 0x1_0000_0000 + (at.y + 0x8000_0000)) as u64
}

proof fn lemma_cell_key_injective(a: Position, b: Position)
    ensures
        cell_key(a) == cell_key(b) <==> a == b,
{
}

fn key_of(at: &Position) -> (key: u64)
    ensures
        key == cell_key(*at),
{
    let x: u64 = (at.x as i64 + 0x8000_0000) as u64;
    let y: u64 = (at.y as i64 + 0x8000_0000) as u64;
    x * 0x1_0000_0000 + y
}

/// The entities stored for the cell `at`; none where the cell has no entry.
spec fn listed(tiles: Map<u64, Vec<Entity>>, at: Position) -> Seq<Entity> {
    if tiles.contains_key(cell_key(at)) {
        tiles[cell_key(at)]@
    } else {
        Seq::empty()
    }
}

/// The cells whose keys are in `keys`.
spec fn marked(keys: Set<u64>) -> Set<Position> {
    Set::new(|at: Position| keys.contains(cell_key(at)))
}

/// A step that path finding may take from a cell: the index of the cell it
/// leads to, and whether it is a diagonal step, which costs more.
#[derive(Clone, Copy, Debug, PartialEq, Eq, Structural)]
pub struct Exit {
    pub index: usize,
    pub diagonal: bool,
}

/// What an index handed to [`GridIndex::idx_position`] stands for: the value
/// itself where it is a `usize`, and no index at all where it is not.
pub open spec fn index_or_none<T: TryInto<usize>>(idx: T) -> Option<int> {
    match idx.try_into_spec() {
        Ok(i) => Some(i as int),
        Err(_) => None,
    }
}

/// Whether `made` is the index that `idx` converts to: what `try_into` makes
/// of it, and none where that fails.
pub open spec fn is_index_of<T: TryInto<usize>>(idx: T, made: Option<usize>) -> bool {
    exists|tried: Result<usize, <T as TryInto<usize>>::Error>| #[trigger]
        call_ensures(<T as TryInto<usize>>::try_into, (idx,), tried) && made == (match tried {
            Ok(i) => Some(i),
            Err(_) => None::<usize>,
        })
}

/// The spatial index of one cycle over a grid of `width` by `height` cells.
pub struct GridIndex {
    width: usize,
    height: usize,
    tiles: HashMap<u64, Vec<Entity>>,
    opaque: HashSet<u64>,
    blockers: HashSet<u64>,
}

impl GridIndex {
    #[verifier::type_invariant]
    spec fn inv(&self) -> bool {
        &&& self.width <= i32::MAX
        &&& self.height <= i32::MAX
        &&& self.width * self.height <= usize::MAX
        &&& forall|key: u64| #[trigger] self.tiles@.contains_key(key) ==> self.tiles@[key]@.len() > 0
    }

    /// Number of columns.
    pub closed spec fn spec_width(&self) -> usize {
        self.width
    }

    /// Number of rows.
    pub closed spec fn spec_height(&self) -> usize {
        self.height
    }

    /// The entities indexed at `at`, in the order in which the rebuild met
    /// them; empty where nothing stands.
    pub closed spec fn occupants_at(&self, at: Position) -> Seq<Entity> {
        listed(self.tiles@, at)
    }

    /// The cells that block sight.
    pub closed spec fn opaque_cells(&self) -> Set<Position> {
        marked(self.opaque@)
    }

    /// The cells that block movement.
    pub closed spec fn blocked_cells(&self) -> Set<Position> {
        marked(self.blockers@)
    }

    /// Whether `at` lies on the grid.
    pub open spec fn in_bounds(&self, at: Position) -> bool {
        0 <= at.x < self.spec_width() && 0 <= at.y < self.spec_height()
    }

    /// Whether both sides of the grid can be addressed by `i32` coordinates
    /// and all its cells by `usize` indices. Every index is of such a size.
    pub open spec fn is_sized(&self) -> bool {
        &&& self.spec_width() <= i32::MAX
        &&& self.spec_height() <= i32::MAX
        &&& self.spec_width() * self.spec_height() <= usize::MAX
    }

    /// Whether the index holds exactly what `placed` gives: for every cell its
    /// entities in order, and the cells that block sight and movement.
    pub open spec fn reflects(&self, placed: Seq<Placed>) -> bool {
        &&& forall|at: Position| #[trigger] self.occupants_at(at) == occupants_of(placed, at)
        &&& self.opaque_cells() == opaque_of(placed)
        &&& self.blocked_cells() == blockers_of(placed)
    }

    /// An empty index over a grid of `width` by `height` cells. Cells are
    /// addressed by `i32` coordinates and by `usize` indices, so both sides
    /// and the number of cells have to fit.
    pub fn new(width: usize, height: usize) -> (index: Self)
        requires
            width <= i32::MAX,
            height <= i32::MAX,
            width * height <= usize::MAX,
        ensures
            index.spec_width() == width,
            index.spec_height() == height,
            index.is_sized(),
            index.reflects(Seq::empty()),
    {
        let index = Self {
            width,
            height,
            tiles: HashMap::new(),
            opaque: HashSet::new(),
            blockers: HashSet::new(),
        };
        assert(index.opaque_cells() =~= opaque_of(Seq::empty()));
        assert(index.blocked_cells() =~= blockers_of(Seq::empty()));
        index
    }

    /// Number of columns.
    #[verifier::when_used_as_spec(spec_width)]
    pub fn width(&self) -> (width: usize)
        ensures
            width == self.spec_width(),
    {
        self.width
    }

    /// Number of rows.
    #[verifier::when_used_as_spec(spec_height)]
    pub fn height(&self) -> (height: usize)
        ensures
            height == self.spec_height(),
    {
        self.height
    }

    /// Whether `position` lies on the grid.
    pub fn is_in_bounds(&self, position: &Position) -> (inside: bool)
        ensures
            inside == self.in_bounds(*position),
    {
        proof {
            use_type_invariant(self);
        }
        position.x >= 0 && position.y >= 0 && position.x < self.width as i32 && position.y
            < self.height as i32
    }

    /// The cell with index `idx`, counting row by row; none for an index
    /// beyond the grid.
    pub open spec fn cell_of(&self, idx: int) -> Option<Position> {
        if 0 <= idx < self.spec_width() * self.spec_height() {
            Some(
                Position {
                    x: (idx % (self.spec_width() as int)) as i32,
                    y: (idx / (self.spec_width() as int)) as i32,
                },
            )
        } else {
            None
        }
    }

    /// The index of the cell `at`, counting row by row; none for a cell off the grid.
    pub open spec fn index_of(&self, at: Position) -> Option<int> {
        if self.in_bounds(at) {
            Some(at.y * self.spec_width() + at.x)
        } else {
            None
        }
    }

    /// Whether path finding may step onto the cell `(x, y)`: it lies on the
    /// grid and nothing there blocks movement.
    pub open spec fn can_enter(&self, x: int, y: int) -> bool {
        &&& 0 <= x < self.spec_width()
        &&& 0 <= y < self.spec_height()
        &&& !self.blocked_cells().contains(Position { x: x as i32, y: y as i32 })
    }

    /// The step onto `(x, y)`, if path finding may take it.
    pub open spec fn exit_to(&self, x: int, y: int, diagonal: bool) -> Seq<Exit> {
        if self.can_enter(x, y) {
            seq![Exit { index: (y * self.spec_width() + x) as usize, diagonal }]
        } else {
            Seq::empty()
        }
    }

    /// The steps from the cell with index `idx`: first to the four cells that
    /// share a side with it, then to the four that share a corner, leaving
    /// out those that path finding may not enter. A cell beyond the grid has none.
    pub open spec fn exits_from(&self, idx: int) -> Seq<Exit> {
        match self.cell_of(idx) {
            None => Seq::empty(),
            Some(c) => self.exit_to(c.x - 1, c.y as int, false) + self.exit_to(
                c.x + 1,
                c.y as int,
                false,
            ) + self.exit_to(c.x as int, c.y - 1, false) + self.exit_to(c.x as int, c.y + 1, false)
                + self.exit_to(c.x - 1, c.y - 1, true) + self.exit_to(c.x + 1, c.y - 1, true)
                + self.exit_to(c.x - 1, c.y + 1, true) + self.exit_to(c.x + 1, c.y + 1, true),
        }
    }

    /// The entities indexed at `position`, in the order in which the rebuild
    /// met them, or `None` where nothing stands.
    pub fn occupants(&self, position: &Position) -> (found: Option<&Vec<Entity>>)
        ensures
            match found {
                Some(list) => list@ == self.occupants_at(*position) && list@.len() > 0,
                None => self.occupants_at(*position).len() == 0,
            },
    {
        proof {
            use_type_invariant(self);
        }
        let key = key_of(position);
        self.tiles.get(&key)
    }

    /// The entities indexed at `position`, in order; empty where nothing stands.
    pub fn at_position(&self, position: &Position) -> (list: Vec<Entity>)
        ensures
            list@ == self.occupants_at(*position),
    {
        match self.occupants(position) {
            Some(found) => {
                let list = found.clone();
                assert(list@ =~= found@);
                list
            },
            None => Vec::new(),
        }
    }

    /// Whether something at `position` blocks sight.
    pub fn is_opaque_at(&self, position: &Position) -> (opaque: bool)
        ensures
            opaque == self.opaque_cells().contains(*position),
    {
        let key = key_of(position);
        self.opaque.contains(&key)
    }

    /// Whether something at `position` blocks movement.
    pub fn is_blocked_at(&self, position: &Position) -> (blocked: bool)
        ensures
            blocked == self.blocked_cells().contains(*position),
    {
        let key = key_of(position);
        self.blockers.contains(&key)
    }

    /// The size of the grid as the point just beyond its last cell.
    pub fn dimensions(&self) -> (corner: Position)
        ensures
            corner.x == self.spec_width(),
            corner.y == self.spec_height(),
    {
        proof {
            use_type_invariant(self);
        }
        Position { x: self.width as i32, y: self.height as i32 }
    }

    /// The cell with index `idx`, counting row by row, or `None` for an index
    /// beyond the grid or one that is no `usize`.
    pub fn idx_position<T>(&self, idx: T) -> (cell: Option<Position>) where T: TryInto<usize>
        ensures
            exists|made: Option<usize>| #[trigger]
                is_index_of(idx, made) && cell == (match made {
                    Some(i) => self.cell_of(i as int),
                    None => None,
                }),
            T::obeys_try_into_spec() ==> cell == (match index_or_none(idx) {
                Some(i) => self.cell_of(i),
                None => None,
            }),
    {
        let tried = idx.try_into();
        assert(call_ensures(<T as TryInto<usize>>::try_into, (idx,), tried));
        match tried {
            Ok(i) => {
                assert(is_index_of(idx, Some(i)));
                self.cell_at(i)
            },
            Err(_) => {
                assert(is_index_of(idx, None));
                None
            },
        }
    }

    /// The cell with index `idx`, counting row by row, or `None` for an index
    /// beyond the grid.
    pub fn cell_at(&self, idx: usize) -> (cell: Option<Position>)
        ensures
            cell == self.cell_of(idx as int),
            cell matches Some(c) ==> self.in_bounds(c) && self.index_of(c) == Some(idx as int),
    {
        proof {
            use_type_invariant(self);
        }
        if idx >= self.width * self.height {
            None
        } else {
            assert(self.width > 0) by (nonlinear_arith)
                requires
                    idx < self.width * self.height,
            ;
            let x = idx % self.width;
            let y = idx / self.width;
            assert(y < self.height) by (nonlinear_arith)
                requires
                    idx < self.width * self.height,
                    y == idx / self.width,
                    self.width > 0,
            ;
            assert(y * self.width + x == idx) by (nonlinear_arith)
                requires
                    x == idx % self.width,
                    y == idx / self.width,
                    self.width > 0,
            ;
            Some(Position { x: x as i32, y: y as i32 })
        }
    }

    /// The index of the cell `position`, counting row by row, or `None` for a
    /// cell off the grid.
    pub fn position_idx(&self, position: &Position) -> (idx: Option<usize>)
        ensures
            match idx {
                Some(i) => self.index_of(*position) == Some(i as int),
                None => self.index_of(*position).is_none(),
            },
    {
        proof {
            use_type_invariant(self);
        }
        if self.is_in_bounds(position) {
            let x = position.x as usize;
            let y = position.y as usize;
            assert(y * self.width + x < self.width * self.height) by (nonlinear_arith)
                requires
                    0 <= x < self.width,
                    0 <= y < self.height,
            ;
            Some(y * self.width + x)
        } else {
            None
        }
    }

    /// Whether path finding may step onto the cell `(x, y)`.
    pub fn is_exit_valid(&self, x: i32, y: i32) -> (valid: bool)
        ensures
            valid == self.can_enter(x as int, y as int),
    {
        let target = Position { x, y };
        self.is_in_bounds(&target) && !self.is_blocked_at(&target)
    }

    /// Whether sight stops at the cell with index `idx`. Beyond the grid
    /// nothing can be seen through.
    pub fn is_opaque(&self, idx: usize) -> (opaque: bool)
        ensures
            opaque == (match self.cell_of(idx as int) {
                Some(cell) => self.opaque_cells().contains(cell),
                None => true,
            }),
    {
        match self.cell_at(idx) {
            Some(cell) => self.is_opaque_at(&cell),
            None => true,
        }
    }

    fn push_exit(&self, exits: &mut Vec<Exit>, x: i32, y: i32, diagonal: bool)
        ensures
            final(exits)@ == old(exits)@ + self.exit_to(x as int, y as int, diagonal),
    {
        proof {
            use_type_invariant(self);
        }
        if self.is_exit_valid(x, y) {
            let column = x as usize;
            let row = y as usize;
            assert(row * self.width + column < self.width * self.height) by (nonlinear_arith)
                requires
                    0 <= column < self.width,
                    0 <= row < self.height,
            ;
            exits.push(Exit { index: row * self.width + column, diagonal });
            assert(exits@ =~= old(exits)@ + self.exit_to(x as int, y as int, diagonal));
        } else {
            assert(exits@ =~= old(exits)@ + self.exit_to(x as int, y as int, diagonal));
        }
    }

    /// The steps that path finding may take from the cell with index `idx`:
    /// to each of the eight cells around it that lies on the grid and is free
    /// of blockers, straight steps first.
    pub fn get_available_exits(&self, idx: usize) -> (exits: Vec<Exit>)
        ensures
            exits@ == self.exits_from(idx as int),
    {
        proof {
            use_type_invariant(self);
        }
        let mut exits: Vec<Exit> = Vec::new();
        match self.cell_at(idx) {
            None => {},
            Some(cell) => {
                let x = cell.x;
                let y = cell.y;
                self.push_exit(&mut exits, x - 1, y, false);
                self.push_exit(&mut exits, x + 1, y, false);
                self.push_exit(&mut exits, x, y - 1, false);
                self.push_exit(&mut exits, x, y + 1, false);
                self.push_exit(&mut exits, x - 1, y - 1, true);
                self.push_exit(&mut exits, x + 1, y - 1, true);
                self.push_exit(&mut exits, x - 1, y + 1, true);
                self.push_exit(&mut exits, x + 1, y + 1, true);
                assert(exits@ =~= self.exits_from(idx as int));
            },
        }
        exits
    }

    /// Clears the index and fills it again from `placed`, in one pass. An
    /// entity off the grid is indexed like any other.
    pub fn rebuild(&mut self, placed: &Vec<Placed>)
        ensures
            final(self).reflects(placed@),
            final(self).spec_width() == old(self).spec_width(),
            final(self).spec_height() == old(self).spec_height(),
            final(self).is_sized(),
    {
        proof {
            use_type_invariant(&*self);
        }
        let mut tiles: HashMap<u64, Vec<Entity>> = HashMap::new();
        let mut opaque: HashSet<u64> = HashSet::new();
        let mut blockers: HashSet<u64> = HashSet::new();
        let mut i: usize = 0;
        assert(marked(opaque@) =~= opaque_of(placed@.take(0)));
        assert(marked(blockers@) =~= blockers_of(placed@.take(0)));
        while i < placed.len()
            invariant
                i <= placed.len(),
                forall|key: u64| #[trigger] tiles@.contains_key(key) ==> tiles@[key]@.len() > 0,
                forall|at: Position| #[trigger] listed(tiles@, at) == occupants_of(placed@.take(i as int), at),
                marked(opaque@) == opaque_of(placed@.take(i as int)),
                marked(blockers@) == blockers_of(placed@.take(i as int)),
            decreases placed.len() - i,
        {
            let ghost tiles_before = tiles@;
            let ghost opaque_before = opaque@;
            let ghost blockers_before = blockers@;
            let ghost seen = placed@.take(i as int);
            let ghost next = placed@.take(i + 1);
            proof {
                assert(next.drop_last() =~= seen);
            }
            let item = placed[i];
            let key = key_of(&item.position);
            tiles.entry(key).or_insert(Vec::new()).push(item.entity);
            if item.opaque {
                opaque.insert(key);
            }
            if item.blocker {
                blockers.insert(key);
            }
            proof {
                assert forall|at: Position| #[trigger] listed(tiles@, at) == occupants_of(next, at) by {
                    lemma_cell_key_injective(at, item.position);
                    assert(listed(tiles_before, at) == occupants_of(seen, at));
                    assert(listed(tiles_before, item.position) == occupants_of(seen, item.position));
                }
                assert forall|at: Position| marked(opaque@).contains(at) == opaque_of(next).contains(at) by {
                    lemma_cell_key_injective(at, item.position);
                    assert(marked(opaque_before).contains(at) == opaque_of(seen).contains(at));
                    if opaque_of(seen).contains(at) {
                        let j = choose|j: int| 0 <= j < seen.len() && (#[trigger] seen[j]).position == at && seen[j].opaque;
                        assert(next[j] == seen[j]);
                    }
                    if opaque_of(next).contains(at) {
                        let j = choose|j: int| 0 <= j < next.len() && (#[trigger] next[j]).position == at && next[j].opaque;
                        if j < i {
                            assert(seen[j] == next[j]);
                        }
                    }
                    if item.opaque && at == item.position {
                        assert(next[i as int] == item);
                    }
                }
                assert(marked(opaque@) =~= opaque_of(next));
                assert forall|at: Position| marked(blockers@).contains(at) == blockers_of(next).contains(at) by {
                    lemma_cell_key_injective(at, item.position);
                    assert(marked(blockers_before).contains(at) == blockers_of(seen).contains(at));
                    if blockers_of(seen).contains(at) {
                        let j = choose|j: int| 0 <= j < seen.len() && (#[trigger] seen[j]).position == at && seen[j].blocker;
                        assert(next[j] == seen[j]);
                    }
                    if blockers_of(next).contains(at) {
                        let j = choose|j: int| 0 <= j < next.len() && (#[trigger] next[j]).position == at && next[j].blocker;
                        if j < i {
                            assert(seen[j] == next[j]);
                        }
                    }
                    if item.blocker && at == item.position {
                        assert(next[i as int] == item);
                    }
                }
                assert(marked(blockers@) =~= blockers_of(next));
            }
            i += 1;
        }
        assert(placed@.take(i as int) =~= placed@);
        self.tiles = tiles;
        self.opaque = opaque;
        self.blockers = blockers;
    }
}

/// An index depends on nothing but the entities it was rebuilt from: two
/// rebuilds from the same entities give the same list for every cell and the
/// same opaque and blocked cells, whatever either index held before.
pub proof fn lemma_rebuild_is_idempotent(first: GridIndex, second: GridIndex, placed: Seq<Placed>)
    requires
        first.reflects(placed),
        second.reflects(placed),
    ensures
        forall|at: Position| #[trigger] first.occupants_at(at) == second.occupants_at(at),
        first.opaque_cells() == second.opaque_cells(),
        first.blocked_cells() == second.blocked_cells(),
{
    assert forall|at: Position| #[trigger] first.occupants_at(at) == second.occupants_at(at) by {
        assert(first.occupants_at(at) == occupants_of(placed, at));
        assert(second.occupants_at(at) == occupants_of(placed, at));
    }
}

/// An entity that is not among the placed ones stands on no cell of an index
/// rebuilt from them.
pub proof fn lemma_absent_entity_is_not_indexed(placed: Seq<Placed>, entity: Entity, at: Position)
    requires
        forall|i: int| 0 <= i < placed.len() ==> (#[trigger] placed[i]).entity != entity,
    ensures
        !occupants_of(placed, at).contains(entity),
    decreases placed.len(),
{
    if placed.len() > 0 {
        let rest = placed.drop_last();
        assert forall|i: int| 0 <= i < rest.len() implies (#[trigger] rest[i]).entity != entity by {
            assert(rest[i] == placed[i]);
        }
        lemma_absent_entity_is_not_indexed(rest, entity, at);
        let before = occupants_of(rest, at);
        if placed.last().position == at {
            assert(placed[placed.len() - 1].entity != entity);
            assert forall|k: int| 0 <= k < before.push(placed.last().entity).len() implies before.push(
                placed.last().entity,
            )[k] != entity by {
                if k < before.len() {
                    assert(before.contains(before[k]));
                }
            }
        }
    }
}

} // verus!
