//! Plain data shared by every phase of a cycle: identities, grid positions,
//! the energy economy of an actor and its field of view.

use vstd::prelude::*;
use vstd::std_specs::convert::TryIntoSpec;

verus! {

/// Energy at which an actor may act.
pub const ACTION_THRESHOLD: i32 = 100;

/// Drawing layer of terrain.
pub const LAYER_MAP: u32 = 0;

/// Drawing layer of items.
pub const LAYER_ITEM: u32 = 2;

/// Drawing layer of monsters.
pub const LAYER_MONSTER: u32 = 3;

/// Drawing layer of the player.
pub const LAYER_PLAYER: u32 = 4;

/// The identity of one thing in the world: a tile, an item or an actor.
#[derive(Clone, Copy, Debug, PartialEq, Eq, Hash, Structural)]
pub struct Entity {
    pub id: u64,
}

/// Drawing order of an entity; higher layers are drawn over lower ones.
#[derive(Clone, Copy, Debug, PartialEq, Eq, Structural)]
pub struct Layer(pub u32);

impl Default for Layer {
    fn default() -> (layer: Self)
        ensures
            layer.0 == 0,
    {
        Layer(0)
    }
}

/// A cell of the grid.
#[derive(Clone, Copy, Debug, PartialEq, Eq, Hash, Structural)]
pub struct Position {
    pub x: i32,
    pub y: i32,
}

/// What a coordinate handed to [`Position::new`] stands for: the value itself
/// where it fits in an `i32`, and zero where it does not.
pub open spec fn coordinate_or_zero<T: TryInto<i32>>(v: T) -> int {
    match v.try_into_spec() {
        Ok(c) => c as int,
        Err(_) => 0,
    }
}

/// Whether `c` is the coordinate that `v` converts to: what `try_into` makes
/// of it, and zero where that fails.
pub open spec fn is_coordinate_of<T: TryInto<i32>>(v: T, c: i32) -> bool {
    exists|made: Result<i32, <T as TryInto<i32>>::Error>| #[trigger]
        call_ensures(<T as TryInto<i32>>::try_into, (v,), made) && c == (match made {
            Ok(value) => value,
            Err(_) => 0i32,
        })
}

/// The squared Euclidean distance between two cells.
pub open spec fn spec_distance_squared(a: Position, b: Position) -> int {
    (a.x - b.x) * (a.x - b.x) + (a.y - b.y) * (a.y - b.y)
}

impl Position {
    /// The cell at `(x, y)`; a coordinate that does not fit in an `i32` becomes zero.
    pub fn new<T>(x: T, y: T) -> (p: Self) where T: TryInto<i32>
        ensures
            is_coordinate_of(x, p.x),
            is_coordinate_of(y, p.y),
            T::obeys_try_into_spec() ==> p.x == coordinate_or_zero(x) && p.y == coordinate_or_zero(
                y,
            ),
    {
        let made_x = x.try_into();
        let made_y = y.try_into();
        assert(call_ensures(<T as TryInto<i32>>::try_into, (x,), made_x));
        assert(call_ensures(<T as TryInto<i32>>::try_into, (y,), made_y));
        let px: i32 = match made_x {
            Ok(v) => v,
            Err(_) => 0,
        };
        let py: i32 = match made_y {
            Ok(v) => v,
            Err(_) => 0,
        };
        Position { x: px, y: py }
    }

    /// The squared Euclidean distance to `other`.
    pub fn distance_squared(&self, other: &Position) -> (d: i32)
        requires
            spec_distance_squared(*self, *other) <= i32::MAX,
        ensures
            d == spec_distance_squared(*self, *other),
    {
        let dx: i64 = self.x as i64 - other.x as i64;
        let dy: i64 = self.y as i64 - other.y as i64;
        assert(dx * dx >= 0 && dy * dy >= 0) by (nonlinear_arith);
        assert(-46341 <= dx <= 46341) by (nonlinear_arith)
            requires
                dx * dx <= 2147483647,
        ;
        assert(-46341 <= dy <= 46341) by (nonlinear_arith)
            requires
                dy * dy <= 2147483647,
        ;
        assert(dx * dx <= 46341 * 46341) by (nonlinear_arith)
            requires
                -46341 <= dx <= 46341,
        ;
        assert(dy * dy <= 46341 * 46341) by (nonlinear_arith)
            requires
                -46341 <= dy <= 46341,
        ;
        (dx * dx + dy * dy) as i32
    }

    /// Whether the two cells are at most `reach` apart, as the crow flies;
    /// defined for every pair of cells.
    pub fn is_within(&self, other: &Position, reach: u32) -> (near: bool)
        ensures
            near == (spec_distance_squared(*self, *other) <= reach * reach),
    {
        let dx: i128 = self.x as i128 - other.x as i128;
        let dy: i128 = self.y as i128 - other.y as i128;
        let r: i128 = reach as i128;
        assert(0 <= dx * dx <= 0x1_0000_0000 * 0x1_0000_0000) by (nonlinear_arith)
            requires
                -0x1_0000_0000 <= dx <= 0x1_0000_0000,
        ;
        assert(0 <= dy * dy <= 0x1_0000_0000 * 0x1_0000_0000) by (nonlinear_arith)
            requires
                -0x1_0000_0000 <= dy <= 0x1_0000_0000,
        ;
        assert(0 <= r * r <= 0x1_0000_0000 * 0x1_0000_0000) by (nonlinear_arith)
            requires
                0 <= r <= 0x1_0000_0000,
        ;
        dx * dx + dy * dy <= r * r
    }
}

impl Default for Position {
    fn default() -> (p: Self)
        ensures
            p.x == 0,
            p.y == 0,
    {
        Position { x: 0, y: 0 }
    }
}

/// A request to occupy `position` next; it lives for one cycle.
#[derive(Clone, Copy, Debug, PartialEq, Eq, Structural)]
pub struct WantToMove {
    pub position: Position,
}

/// Action points an actor has saved up.
#[derive(Clone, Copy, Debug, PartialEq, Eq, Structural)]
pub struct Energy(pub i32);

impl Default for Energy {
    fn default() -> (energy: Self)
        ensures
            energy.0 == 0,
    {
        Energy(0)
    }
}

/// Action points an actor gains in each scheduling pass.
#[derive(Clone, Copy, Debug, PartialEq, Eq, Structural)]
pub struct Speed(pub i32);

impl Speed {
    /// A speed makes progress only if it is positive.
    pub open spec fn is_valid(self) -> bool {
        self.0 > 0
    }

    /// A validated speed: `None` for a speed that would stall the scheduler.
    pub fn new(speed: i32) -> (made: Option<Self>)
        ensures
            made == (if speed > 0 {
                Some(Speed(speed))
            } else {
                None
            }),
    {
        if speed > 0 {
            Some(Speed(speed))
        } else {
            None
        }
    }
}

/// Marks an entity that takes part in the turn economy.
#[derive(Clone, Copy, Debug, PartialEq, Eq, Structural)]
pub struct Actor;

impl Default for Actor {
    fn default() -> (actor: Self) {
        Actor
    }
}

/// What every moving entity starts with: a place, no energy and its speed.
#[derive(Clone, Copy, Debug, PartialEq, Eq, Structural)]
pub struct MovingEntityBundle {
    pub position: Position,
    pub energy: Energy,
    pub speed: Speed,
    pub actor: Actor,
}

impl MovingEntityBundle {
    /// A mover at the origin with no energy saved up.
    pub fn new(speed: i32) -> (bundle: Self)
        requires
            speed > 0,
        ensures
            bundle.speed == Speed(speed),
            bundle.speed.is_valid(),
            bundle.energy == Energy(0),
            bundle.position == (Position { x: 0, y: 0 }),
    {
        MovingEntityBundle {
            speed: Speed(speed),
            position: Position::default(),
            energy: Energy::default(),
            actor: Actor,
        }
    }

    /// The same mover, placed at `position`.
    pub fn with_position(self, position: Position) -> (bundle: Self)
        ensures
            bundle == (MovingEntityBundle { position, ..self }),
    {
        let mut moved = self;
        moved.position = position;
        moved
    }
}

/// How far an observer sees, and the cells it sees at the moment.
pub struct Fov {
    pub visible_tiles: Vec<Position>,
    pub range: u32,
}

impl Fov {
    /// The cells in view, as a set.
    pub open spec fn visible(&self) -> Set<Position> {
        self.visible_tiles@.to_set()
    }

    /// No cell is listed twice.
    pub open spec fn is_valid(&self) -> bool {
        self.visible_tiles@.no_duplicates()
    }

    /// An observer that has not looked around yet.
    pub fn new(range: u32) -> (fov: Self)
        ensures
            fov.range == range,
            fov.visible_tiles@ == Seq::<Position>::empty(),
            fov.is_valid(),
    {
        Fov { visible_tiles: Vec::new(), range }
    }

    /// The sight range as the signed radius a field-of-view sweep takes:
    /// a range beyond `i32::MAX` counts as zero.
    pub fn sight_radius(&self) -> (radius: i32)
        ensures
            radius == (if self.range <= i32::MAX {
                self.range as int
            } else {
                0
            }),
    {
        if self.range <= 2147483647 {
            self.range as i32
        } else {
            0
        }
    }
}

} // verus!
