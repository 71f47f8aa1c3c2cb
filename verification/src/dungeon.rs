//! The dungeon as its builder lays it out: a wall-filled grid with rooms cut
//! into it and tunnels between them.

use vstd::prelude::*;
use vstd::std_specs::convert::TryIntoSpec;
use bracket_geometry::prelude::Rect;
use bracket_random::prelude::RandomNumberGenerator;
use crate::components::Position;
use crate::grid::is_index_of;
use crate::map_tile::{TileBundle, TileType};

verus! {

/// The smallest side of a room.
pub const MIN_ROOM_SIZE: usize = 4;

/// The smallest side of a map that rooms can be placed on.
pub const MIN_MAP_SIZE: usize = 8;

/// The largest side of a map: cells are addressed by `i32` coordinates, with
/// room to spare for the sums that laying out rooms computes.
pub const MAX_MAP_SIZE: usize = 0x1000_0000;

/// Half of `sum`, rounded towards zero.
pub open spec fn half(sum: int) -> int {
    if sum >= 0 {
        sum / 2
    } else {
        -((-sum) / 2)
    }
}

/// A rectangular room: the cells from `(x1, y1)` up to, not including, `(x2, y2)`.
#[derive(Clone, Copy, Debug, PartialEq, Eq, Structural)]
pub struct Room {
    pub x1: i32,
    pub x2: i32,
    pub y1: i32,
    pub y2: i32,
}

impl Room {
    /// Whether two rooms overlap or touch.
    pub open spec fn overlaps(self, other: Room) -> bool {
        self.x1 <= other.x2 && self.x2 >= other.x1 && self.y1 <= other.y2 && self.y2 >= other.y1
    }

    /// The cell in the middle of the room.
    pub open spec fn spec_center(self) -> Position {
        Position { x: half(self.x1 + self.x2) as i32, y: half(self.y1 + self.y2) as i32 }
    }

    /// Whether the cell `(x, y)` is part of the room.
    pub open spec fn holds(self, x: int, y: int) -> bool {
        self.x1 <= x < self.x2 && self.y1 <= y < self.y2
    }

    /// Whether the corners are far enough from the ends of `i32` for their sums.
    pub open spec fn is_bounded(self) -> bool {
        &&& -0x2000_0000 <= self.x1 <= 0x2000_0000
        &&& -0x2000_0000 <= self.x2 <= 0x2000_0000
        &&& -0x2000_0000 <= self.y1 <= 0x2000_0000
        &&& -0x2000_0000 <= self.y2 <= 0x2000_0000
    }
}

/// `Rect::with_size` makes the rectangle with corner `(x, y)`, `w` wide and
/// `h` high; it adds in `i32`, so the far corner has to fit.
#[verifier::external_body]
fn room_with_size(x: i32, y: i32, w: i32, h: i32) -> (room: Room)
    requires
        i32::MIN <= x + w <= i32::MAX,
        i32::MIN <= y + h <= i32::MAX,
    ensures
        room == (Room { x1: x, x2: (x + w) as i32, y1: y, y2: (y + h) as i32 }),
{
    let rect = Rect::with_size(x, y, w, h);
    Room { x1: rect.x1, x2: rect.x2, y1: rect.y1, y2: rect.y2 }
}

/// `Rect::intersect` tells whether two rectangles overlap, counting those
/// that only touch.
#[verifier::external_body]
fn rooms_intersect(a: &Room, b: &Room) -> (hit: bool)
    ensures
        hit == a.overlaps(*b),
{
    let first = Rect { x1: a.x1, x2: a.x2, y1: a.y1, y2: a.y2 };
    let second = Rect { x1: b.x1, x2: b.x2, y1: b.y1, y2: b.y2 };
    first.intersect(&second)
}

/// `Rect::center` gives the middle of a rectangle: on each axis half the sum
/// of the two ends, rounded towards zero. It adds in `i32`, so the sums have to fit.
#[verifier::external_body]
fn room_center(room: &Room) -> (middle: Position)
    requires
        i32::MIN <= room.x1 + room.x2 <= i32::MAX,
        i32::MIN <= room.y1 + room.y2 <= i32::MAX,
    ensures
        middle == room.spec_center(),
{
    let rect = Rect { x1: room.x1, x2: room.x2, y1: room.y1, y2: room.y2 };
    let point = rect.center();
    Position { x: point.x, y: point.y }
}

/// `RandomNumberGenerator::range` draws a number from `min` up to, not
/// including, `max`; it refuses an empty range.
#[verifier::external_body]
fn random_in_range(rng: &mut RandomNumberGenerator, min: i32, max: i32) -> (drawn: i32)
    requires
        min < max,
    ensures
        min <= drawn < max,
{
    rng.range(min, max)
}

/// `RandomNumberGenerator::rand` draws a value of the type asked for, here a
/// `bool`; nothing is known of it.
#[verifier::external_body]
fn coin_flip(rng: &mut RandomNumberGenerator) -> (heads: bool) {
    rng.rand::<bool>()
}

/// The index of the cell `(x, y)` in a layout of `width` by `height` cells,
/// counting row by row. As a tunnel may run along the far edges, a
/// coordinate equal to the side still counts.
pub open spec fn layout_index(width: int, height: int, x: int, y: int) -> Option<int> {
    if 0 <= x <= width && 0 <= y <= height && y * width + x <= usize::MAX {
        Some(y * width + x)
    } else {
        None
    }
}

/// What an index handed to [`MapInfo::xy_idx`] stands for.
pub open spec fn coordinate_or_none<T: TryInto<usize>>(v: T) -> Option<int> {
    match v.try_into_spec() {
        Ok(c) => Some(c as int),
        Err(_) => None,
    }
}

/// The layout of a dungeon: its terrain row by row, its rooms, and where the
/// player starts.
pub struct MapInfo {
    pub width: usize,
    pub height: usize,
    pub tiles: Vec<TileType>,
    pub rooms: Vec<Room>,
    pub player_start: Option<Position>,
}

impl MapInfo {
    /// Every cell has its terrain.
    pub open spec fn is_valid(&self) -> bool {
        self.tiles@.len() == self.width * self.height
    }

    /// The index of the cell `(x, y)`, counting row by row.
    pub open spec fn index_at(&self, x: int, y: int) -> Option<int> {
        layout_index(self.width as int, self.height as int, x, y)
    }

    /// A layout of `width` by `height` cells, all of them wall.
    pub fn new(width: usize, height: usize) -> (map: Self)
        requires
            width * height <= usize::MAX,
        ensures
            map.width == width,
            map.height == height,
            map.is_valid(),
            map.rooms@.len() == 0,
            map.player_start.is_none(),
            forall|i: int| 0 <= i < map.tiles@.len() ==> map.tiles@[i] == TileType::Wall,
    {
        let cells = width * height;
        let mut tiles: Vec<TileType> = Vec::new();
        let mut i: usize = 0;
        while i < cells
            invariant
                i <= cells,
                tiles@.len() == i,
                forall|j: int| 0 <= j < i ==> tiles@[j] == TileType::Wall,
            decreases cells - i,
        {
            tiles.push(TileType::Wall);
            i += 1;
        }
        MapInfo { width, height, player_start: None, rooms: Vec::new(), tiles }
    }

    /// The index of the cell `(x, y)`, or `None` for coordinates that are
    /// negative or beyond the sides.
    pub fn xy_idx<T: TryInto<usize>>(&self, x: T, y: T) -> (idx: Option<usize>)
        ensures
            exists|column: Option<usize>, row: Option<usize>| #[trigger]
                is_index_of(x, column) && #[trigger] is_index_of(y, row) && idx == (match (column, row) {
                    (Some(c), Some(r)) => match self.index_at(c as int, r as int) {
                        Some(i) => Some(i as usize),
                        None => None,
                    },
                    _ => None,
                }),
            T::obeys_try_into_spec() ==> idx == (match (coordinate_or_none(x), coordinate_or_none(y)) {
                (Some(column), Some(row)) => match self.index_at(column, row) {
                    Some(i) => Some(i as usize),
                    None => None,
                },
                _ => None,
            }),
    {
        let tried_x = x.try_into();
        let tried_y = y.try_into();
        assert(call_ensures(<T as TryInto<usize>>::try_into, (x,), tried_x));
        assert(call_ensures(<T as TryInto<usize>>::try_into, (y,), tried_y));
        let ghost made_x = match tried_x {
            Ok(c) => Some(c),
            Err(_) => None::<usize>,
        };
        let ghost made_y = match tried_y {
            Ok(r) => Some(r),
            Err(_) => None::<usize>,
        };
        assert(is_index_of(x, made_x) && is_index_of(y, made_y));
        match (tried_x, tried_y) {
            (Ok(column), Ok(row)) => self.cell_index(column, row),
            _ => None,
        }
    }

    /// The index of the cell in column `column` and row `row`.
    pub fn cell_index(&self, column: usize, row: usize) -> (idx: Option<usize>)
        ensures
            idx == (match self.index_at(column as int, row as int) {
                Some(i) => Some(i as usize),
                None => None,
            }),
    {
        if column > self.width || row > self.height {
            None
        } else {
            match row.checked_mul(self.width) {
                Some(start) => start.checked_add(column),
                None => {
                    assert(row * self.width + column > usize::MAX);
                    None
                },
            }
        }
    }

    /// Turns the cell `(x, y)` into floor, if the layout has such a cell.
    fn dig(&mut self, x: i32, y: i32)
        ensures
            final(self).width == old(self).width,
            final(self).height == old(self).height,
            final(self).rooms == old(self).rooms,
            final(self).player_start == old(self).player_start,
            final(self).tiles@.len() == old(self).tiles@.len(),
            forall|i: int|
                0 <= i < old(self).tiles@.len() ==> #[trigger] final(self).tiles@[i] == (if old(
                    self,
                ).index_at(x as int, y as int) == Some(i) {
                    TileType::Floor
                } else {
                    old(self).tiles@[i]
                }),
    {
        if x < 0 || y < 0 {
            return ;
        }
        if let Some(idx) = self.cell_index(x as usize, y as usize) {
            if idx < self.tiles.len() {
                self.tiles[idx] = TileType::Floor;
            }
        }
    }
}

/// Whether a horizontal tunnel between the columns `x1` and `x2` in row `y`
/// runs through the cell with index `i`.
pub open spec fn on_horizontal_tunnel(width: int, height: int, x1: int, x2: int, y: int, i: int) -> bool {
    exists|x: int|
        (if x1 <= x2 {
            x1
        } else {
            x2
        }) <= x <= (if x1 <= x2 {
            x2
        } else {
            x1
        }) && #[trigger] layout_index(width, height, x, y) == Some(i)
}

/// Whether a vertical tunnel between the rows `y1` and `y2` in column `x`
/// runs through the cell with index `i`.
pub open spec fn on_vertical_tunnel(width: int, height: int, y1: int, y2: int, x: int, i: int) -> bool {
    exists|y: int|
        (if y1 <= y2 {
            y1
        } else {
            y2
        }) <= y <= (if y1 <= y2 {
            y2
        } else {
            y1
        }) && #[trigger] layout_index(width, height, x, y) == Some(i)
}

/// Digs a tunnel along row `y` from column `x1` to column `x2`, both
/// included, whichever is the larger. Cells off the layout are passed over.
pub fn apply_horizontal_tunnel(map: &mut MapInfo, x1: i32, x2: i32, y: i32)
    ensures
        final(map).width == old(map).width,
        final(map).height == old(map).height,
        final(map).rooms == old(map).rooms,
        final(map).player_start == old(map).player_start,
        final(map).tiles@.len() == old(map).tiles@.len(),
        forall|i: int|
            0 <= i < old(map).tiles@.len() ==> #[trigger] final(map).tiles@[i] == (if on_horizontal_tunnel(
                old(map).width as int,
                old(map).height as int,
                x1 as int,
                x2 as int,
                y as int,
                i,
            ) {
                TileType::Floor
            } else {
                old(map).tiles@[i]
            }),
{
    let low = if x1 <= x2 {
        x1
    } else {
        x2
    };
    let high = if x1 <= x2 {
        x2
    } else {
        x1
    };
    let mut x: i64 = low as i64;
    while x <= high as i64
        invariant
            low <= x <= high + 1,
            low == (if x1 <= x2 {
                x1
            } else {
                x2
            }),
            high == (if x1 <= x2 {
                x2
            } else {
                x1
            }),
            map.width == old(map).width,
            map.height == old(map).height,
            map.rooms == old(map).rooms,
            map.player_start == old(map).player_start,
            map.tiles@.len() == old(map).tiles@.len(),
            forall|i: int|
                0 <= i < old(map).tiles@.len() ==> #[trigger] map.tiles@[i] == (if exists|c: int|
                    low <= c < x && #[trigger] layout_index(old(map).width as int, old(map).height as int, c, y as int) == Some(i) {
                    TileType::Floor
                } else {
                    old(map).tiles@[i]
                }),
        decreases high + 1 - x,
    {
        let ghost before = *map;
        assert(before.index_at(x as int, y as int) == old(map).index_at(x as int, y as int));
        map.dig(x as i32, y);
        assert forall|i: int| 0 <= i < old(map).tiles@.len() implies #[trigger] map.tiles@[i] == (if exists|
            c: int,
        |
            low <= c <= x && #[trigger] layout_index(old(map).width as int, old(map).height as int, c, y as int) == Some(i) {
            TileType::Floor
        } else {
            old(map).tiles@[i]
        }) by {
            if exists|c: int| low <= c < x && #[trigger] layout_index(old(map).width as int, old(map).height as int, c, y as int) == Some(i) {
                let c = choose|c: int| low <= c < x && #[trigger] layout_index(old(map).width as int, old(map).height as int, c, y as int) == Some(i);
                assert(low <= c <= x && layout_index(old(map).width as int, old(map).height as int, c, y as int) == Some(i));
            }
            if exists|c: int| low <= c <= x && #[trigger] layout_index(old(map).width as int, old(map).height as int, c, y as int) == Some(i) {
                let c = choose|c: int| low <= c <= x && #[trigger] layout_index(old(map).width as int, old(map).height as int, c, y as int) == Some(i);
                if c < x {
                    assert(low <= c < x && layout_index(old(map).width as int, old(map).height as int, c, y as int) == Some(i));
                }
            }
        }
        x += 1;
    }
}

/// Digs a tunnel along column `x` from row `y1` to row `y2`, both included,
/// whichever is the larger. Cells off the layout are passed over.
pub fn apply_vertical_tunnel(map: &mut MapInfo, y1: i32, y2: i32, x: i32)
    ensures
        final(map).width == old(map).width,
        final(map).height == old(map).height,
        final(map).rooms == old(map).rooms,
        final(map).player_start == old(map).player_start,
        final(map).tiles@.len() == old(map).tiles@.len(),
        forall|i: int|
            0 <= i < old(map).tiles@.len() ==> #[trigger] final(map).tiles@[i] == (if on_vertical_tunnel(
                old(map).width as int,
                old(map).height as int,
                y1 as int,
                y2 as int,
                x as int,
                i,
            ) {
                TileType::Floor
            } else {
                old(map).tiles@[i]
            }),
{
    let low = if y1 <= y2 {
        y1
    } else {
        y2
    };
    let high = if y1 <= y2 {
        y2
    } else {
        y1
    };
    let mut y: i64 = low as i64;
    while y <= high as i64
        invariant
            low <= y <= high + 1,
            low == (if y1 <= y2 {
                y1
            } else {
                y2
            }),
            high == (if y1 <= y2 {
                y2
            } else {
                y1
            }),
            map.width == old(map).width,
            map.height == old(map).height,
            map.rooms == old(map).rooms,
            map.player_start == old(map).player_start,
            map.tiles@.len() == old(map).tiles@.len(),
            forall|i: int|
                0 <= i < old(map).tiles@.len() ==> #[trigger] map.tiles@[i] == (if exists|r: int|
                    low <= r < y && #[trigger] layout_index(old(map).width as int, old(map).height as int, x as int, r) == Some(i) {
                    TileType::Floor
                } else {
                    old(map).tiles@[i]
                }),
        decreases high + 1 - y,
    {
        let ghost before = *map;
        assert(before.index_at(x as int, y as int) == old(map).index_at(x as int, y as int));
        map.dig(x, y as i32);
        assert forall|i: int| 0 <= i < old(map).tiles@.len() implies #[trigger] map.tiles@[i] == (if exists|
            r: int,
        |
            low <= r <= y && #[trigger] layout_index(old(map).width as int, old(map).height as int, x as int, r) == Some(i) {
            TileType::Floor
        } else {
            old(map).tiles@[i]
        }) by {
            if exists|r: int| low <= r < y && #[trigger] layout_index(old(map).width as int, old(map).height as int, x as int, r) == Some(i) {
                let r = choose|r: int| low <= r < y && #[trigger] layout_index(old(map).width as int, old(map).height as int, x as int, r) == Some(i);
                assert(low <= r <= y && layout_index(old(map).width as int, old(map).height as int, x as int, r) == Some(i));
            }
            if exists|r: int| low <= r <= y && #[trigger] layout_index(old(map).width as int, old(map).height as int, x as int, r) == Some(i) {
                let r = choose|r: int| low <= r <= y && #[trigger] layout_index(old(map).width as int, old(map).height as int, x as int, r) == Some(i);
                if r < y {
                    assert(low <= r < y && layout_index(old(map).width as int, old(map).height as int, x as int, r) == Some(i));
                }
            }
        }
        y += 1;
    }
}

/// The number of rooms that a builder tries to place.
pub const MAX_ROOMS: usize = 30;

/// The largest side of a room on a map of `width` by `height` cells: a third
/// of the shorter side, but no less than the smallest room.
pub open spec fn largest_room(width: int, height: int) -> int {
    let third = if width / 3 <= height / 3 {
        width / 3
    } else {
        height / 3
    };
    if third >= MIN_ROOM_SIZE {
        third
    } else {
        MIN_ROOM_SIZE as int
    }
}

/// The terrain of the cell with index `i` once `room` is cut into a layout
/// `width` cells wide: a cell of the room is grass where `grass` says so and
/// floor elsewhere; any other cell stays what it was.
pub open spec fn cut_into(tiles: Seq<TileType>, width: int, room: Room, grass: Seq<bool>, i: int) -> TileType {
    if width > 0 && room.holds(i % width, i / width) {
        if i < grass.len() && grass[i] {
            TileType::Grass
        } else {
            TileType::Floor
        }
    } else {
        tiles[i]
    }
}

/// Whether the tunnels that join the middles `from` and `to` of two rooms
/// run through the cell with index `i`. The tunnel leaves `from` along its
/// row if `row_first` and along its column if not, and turns once.
pub open spec fn on_tunnels(
    width: int,
    height: int,
    from: Position,
    to: Position,
    row_first: bool,
    i: int,
) -> bool {
    if row_first {
        on_horizontal_tunnel(width, height, from.x as int, to.x as int, from.y as int, i) || on_vertical_tunnel(
            width,
            height,
            from.y as int,
            to.y as int,
            to.x as int,
            i,
        )
    } else {
        on_vertical_tunnel(width, height, from.y as int, to.y as int, from.x as int, i) || on_horizontal_tunnel(
            width,
            height,
            from.x as int,
            to.x as int,
            to.y as int,
            i,
        )
    }
}

/// Whether `after` is the terrain that `before` becomes when `room` is cut
/// into it and then joined to the room with the middle `from` by tunnels.
pub open spec fn is_joined(
    after: Seq<TileType>,
    before: Seq<TileType>,
    width: int,
    height: int,
    room: Room,
    grass: Seq<bool>,
    from: Position,
    row_first: bool,
) -> bool {
    forall|i: int|
        0 <= i < before.len() ==> #[trigger] after[i] == (if on_tunnels(
            width,
            height,
            from,
            room.spec_center(),
            row_first,
            i,
        ) {
            TileType::Floor
        } else {
            cut_into(before, width, room, grass, i)
        })
}

/// Cuts `room` into the layout: every cell of the room becomes grass where
/// `grass` marks its index, and floor elsewhere.
pub fn apply_room(map: &mut MapInfo, room: &Room, grass: &Vec<bool>)
    ensures
        final(map).width == old(map).width,
        final(map).height == old(map).height,
        final(map).rooms == old(map).rooms,
        final(map).player_start == old(map).player_start,
        final(map).tiles@.len() == old(map).tiles@.len(),
        forall|i: int|
            0 <= i < old(map).tiles@.len() ==> #[trigger] final(map).tiles@[i] == cut_into(
                old(map).tiles@,
                old(map).width as int,
                *room,
                grass@,
                i,
            ),
{
    if map.width == 0 {
        return ;
    }
    let n = map.tiles.len();
    let mut i: usize = 0;
    while i < n
        invariant
            i <= n,
            n == map.tiles@.len(),
            n == old(map).tiles@.len(),
            map.width > 0,
            map.width == old(map).width,
            map.height == old(map).height,
            map.rooms == old(map).rooms,
            map.player_start == old(map).player_start,
            forall|j: int|
                0 <= j < i ==> #[trigger] map.tiles@[j] == cut_into(
                    old(map).tiles@,
                    old(map).width as int,
                    *room,
                    grass@,
                    j,
                ),
            forall|j: int| i <= j < n ==> #[trigger] map.tiles@[j] == old(map).tiles@[j],
        decreases n - i,
    {
        let column = i % map.width;
        let row = i / map.width;
        if room.x1 as i128 <= column as i128 && (column as i128) < room.x2 as i128 && room.y1 as i128
            <= row as i128 && (row as i128) < room.y2 as i128 {
            if i < grass.len() && grass[i] {
                map.tiles[i] = TileType::Grass;
            } else {
                map.tiles[i] = TileType::Floor;
            }
        }
        i += 1;
    }
}

/// Lays out rooms one by one, each joined to the one before it.
pub struct RoomMapBuilder {
    width: usize,
    height: usize,
    rooms: Vec<Room>,
    min_room_size: usize,
    max_room_size: usize,
    rng: RandomNumberGenerator,
}

impl RoomMapBuilder {
    /// Width of the map that is built.
    pub closed spec fn spec_width(&self) -> usize {
        self.width
    }

    /// Height of the map that is built.
    pub closed spec fn spec_height(&self) -> usize {
        self.height
    }

    /// The rooms placed so far, in order.
    pub closed spec fn spec_rooms(&self) -> Seq<Room> {
        self.rooms@
    }

    /// The builder's sizes are in order and its rooms lie on the map.
    pub closed spec fn is_valid(&self) -> bool {
        &&& MIN_MAP_SIZE <= self.width <= MAX_MAP_SIZE
        &&& MIN_MAP_SIZE <= self.height <= MAX_MAP_SIZE
        &&& self.min_room_size == MIN_ROOM_SIZE
        &&& self.max_room_size == largest_room(self.width as int, self.height as int)
        &&& forall|i: int| 0 <= i < self.rooms@.len() ==> (#[trigger] self.rooms@[i]).is_bounded()
    }

    /// Whether `room` is a room that this builder may propose: of a side
    /// between the smallest and the largest room, and a cell or more away
    /// from every edge of the map.
    pub open spec fn may_propose(&self, room: Room) -> bool {
        &&& MIN_ROOM_SIZE <= room.x2 - room.x1 <= largest_room(
            self.spec_width() as int,
            self.spec_height() as int,
        )
        &&& MIN_ROOM_SIZE <= room.y2 - room.y1 <= largest_room(
            self.spec_width() as int,
            self.spec_height() as int,
        )
        &&& 1 <= room.x1
        &&& room.x2 <= self.spec_width() - 3
        &&& 1 <= room.y1
        &&& room.y2 <= self.spec_height() - 3
    }

    /// Whether `room` keeps clear of every room placed so far.
    pub open spec fn has_space_for(&self, room: Room) -> bool {
        forall|i: int| 0 <= i < self.spec_rooms().len() ==> !(#[trigger] self.spec_rooms()[i]).overlaps(room)
    }

    /// A builder for a map of `width` by `height` cells that draws from `rng`.
    pub fn new(width: usize, height: usize, rng: RandomNumberGenerator) -> (builder: Self)
        requires
            MIN_MAP_SIZE <= width <= MAX_MAP_SIZE,
            MIN_MAP_SIZE <= height <= MAX_MAP_SIZE,
        ensures
            builder.is_valid(),
            builder.spec_width() == width,
            builder.spec_height() == height,
            builder.spec_rooms().len() == 0,
    {
        let third = if width / 3 <= height / 3 {
            width / 3
        } else {
            height / 3
        };
        let max_room_size = if third >= MIN_ROOM_SIZE {
            third
        } else {
            MIN_ROOM_SIZE
        };
        RoomMapBuilder {
            width,
            height,
            min_room_size: MIN_ROOM_SIZE,
            max_room_size,
            rng,
            rooms: Vec::new(),
        }
    }

    /// Width of the map that is built.
    pub fn width(&self) -> (width: usize)
        ensures
            width == self.spec_width(),
    {
        self.width
    }

    /// Height of the map that is built.
    pub fn height(&self) -> (height: usize)
        ensures
            height == self.spec_height(),
    {
        self.height
    }

    /// The rooms placed so far, in order.
    pub fn rooms(&self) -> (rooms: &Vec<Room>)
        ensures
            rooms@ == self.spec_rooms(),
    {
        &self.rooms
    }

    /// Proposes a room of random size at a random place on the map.
    pub fn build_random_room(&mut self) -> (room: Room)
        requires
            old(self).is_valid(),
        ensures
            final(self).is_valid(),
            final(self).spec_width() == old(self).spec_width(),
            final(self).spec_height() == old(self).spec_height(),
            final(self).spec_rooms() == old(self).spec_rooms(),
            final(self).may_propose(room),
            room.is_bounded(),
    {
        let low = self.min_room_size as i32;
        let high = self.max_room_size as i32;
        let w = random_in_range(&mut self.rng, low, high + 1);
        let h = random_in_range(&mut self.rng, low, high + 1);
        let x = random_in_range(&mut self.rng, 2, self.width as i32 - w - 1) - 1;
        let y = random_in_range(&mut self.rng, 2, self.height as i32 - h - 1) - 1;
        room_with_size(x, y, w, h)
    }

    /// Whether `room` keeps clear of every room placed so far.
    pub fn fits(&self, room: &Room) -> (free: bool)
        ensures
            free == self.has_space_for(*room),
    {
        let mut i: usize = 0;
        while i < self.rooms.len()
            invariant
                i <= self.rooms.len(),
                forall|j: int| 0 <= j < i ==> !(#[trigger] self.rooms@[j]).overlaps(*room),
            decreases self.rooms.len() - i,
        {
            if rooms_intersect(&self.rooms[i], room) {
                assert(self.spec_rooms()[i as int].overlaps(*room));
                return false;
            }
            i += 1;
        }
        true
    }

    /// Places `room` if it keeps clear of the rooms placed so far, and says
    /// whether it did. A room that is placed is cut into the layout, with
    /// grass where `grass` marks a cell, and joined to the room placed before
    /// it by a tunnel that turns once; a coin decides which way the tunnel
    /// sets out.
    pub fn place_room(&mut self, map: &mut MapInfo, room: Room, grass: &Vec<bool>) -> (placed: bool)
        requires
            old(self).is_valid(),
            room.is_bounded(),
        ensures
            final(self).is_valid(),
            final(self).spec_width() == old(self).spec_width(),
            final(self).spec_height() == old(self).spec_height(),
            placed == old(self).has_space_for(room),
            final(map).width == old(map).width,
            final(map).height == old(map).height,
            final(map).rooms == old(map).rooms,
            final(map).player_start == old(map).player_start,
            final(map).tiles@.len() == old(map).tiles@.len(),
            !placed ==> final(self).spec_rooms() == old(self).spec_rooms() && final(map).tiles@ == old(
                map,
            ).tiles@,
            placed ==> final(self).spec_rooms() == old(self).spec_rooms().push(room),
            placed && old(self).spec_rooms().len() == 0 ==> forall|i: int|
                0 <= i < old(map).tiles@.len() ==> #[trigger] final(map).tiles@[i] == cut_into(
                    old(map).tiles@,
                    old(map).width as int,
                    room,
                    grass@,
                    i,
                ),
            placed && old(self).spec_rooms().len() > 0 ==> exists|row_first: bool| #[trigger]
                is_joined(
                    final(map).tiles@,
                    old(map).tiles@,
                    old(map).width as int,
                    old(map).height as int,
                    room,
                    grass@,
                    old(self).spec_rooms().last().spec_center(),
                    row_first,
                ),
    {
        if !self.fits(&room) {
            return false;
        }
        apply_room(map, &room, grass);
        if self.rooms.len() > 0 {
            let ghost cut = map.tiles@;
            let to = room_center(&room);
            let from = room_center(&self.rooms[self.rooms.len() - 1]);
            let row_first = coin_flip(&mut self.rng);
            if row_first {
                apply_horizontal_tunnel(map, from.x, to.x, from.y);
                apply_vertical_tunnel(map, from.y, to.y, to.x);
            } else {
                apply_vertical_tunnel(map, from.y, to.y, from.x);
                apply_horizontal_tunnel(map, from.x, to.x, to.y);
            }
            assert forall|i: int| 0 <= i < old(map).tiles@.len() implies #[trigger] map.tiles@[i] == (if on_tunnels(
                old(map).width as int,
                old(map).height as int,
                from,
                to,
                row_first,
                i,
            ) {
                TileType::Floor
            } else {
                cut[i]
            }) by {}
            assert(from == old(self).spec_rooms().last().spec_center());
            assert(is_joined(
                map.tiles@,
                old(map).tiles@,
                old(map).width as int,
                old(map).height as int,
                room,
                grass@,
                from,
                row_first,
            ));
        }
        self.rooms.push(room);
        true
    }

    /// Completes the layout: it lists the rooms that were placed, and starts
    /// the player in the middle of the first of them, or at the origin if
    /// there is none.
    pub fn finish(&self, map: &mut MapInfo)
        requires
            self.is_valid(),
        ensures
            final(map).width == old(map).width,
            final(map).height == old(map).height,
            final(map).tiles == old(map).tiles,
            final(map).rooms@ == self.spec_rooms(),
            final(map).player_start == Some(
                if self.spec_rooms().len() > 0 {
                    self.spec_rooms()[0].spec_center()
                } else {
                    Position { x: 0, y: 0 }
                },
            ),
    {
        let start = if self.rooms.len() > 0 {
            room_center(&self.rooms[0])
        } else {
            Position { x: 0, y: 0 }
        };
        map.player_start = Some(start);
        let rooms = self.rooms.clone();
        assert(rooms@ =~= self.rooms@);
        map.rooms = rooms;
    }
}

/// What is put into a room.
#[derive(Clone, Copy, Debug, PartialEq, Eq, Structural)]
pub enum SpawnKind {
    Monster,
    Item,
}

/// One thing to put into a room, and where.
#[derive(Clone, Copy, Debug, PartialEq, Eq, Structural)]
pub struct Spawn {
    pub position: Position,
    pub kind: SpawnKind,
}

/// Whether a spawn of `spawned` already stands at `at`.
pub open spec fn is_taken(spawned: Seq<Spawn>, at: Position) -> bool {
    exists|i: int| 0 <= i < spawned.len() && (#[trigger] spawned[i]).position == at
}

/// The number of things that a roll puts into a room: one less than the die
/// shows, so that a room may stay empty.
pub fn spawn_count(roll: i32) -> (count: usize)
    requires
        roll >= 1,
    ensures
        count == roll - 1,
{
    (roll - 1) as usize
}

/// Draws a cell from the inside of `room`, away from its edges.
pub fn random_cell_in(rng: &mut RandomNumberGenerator, room: &Room) -> (at: Position)
    requires
        room.is_bounded(),
        room.x1 + 1 < room.x2 - 1,
        room.y1 + 1 < room.y2 - 1,
    ensures
        room.x1 + 1 <= at.x < room.x2 - 1,
        room.y1 + 1 <= at.y < room.y2 - 1,
{
    let x = random_in_range(rng, room.x1 + 1, room.x2 - 1);
    let y = random_in_range(rng, room.y1 + 1, room.y2 - 1);
    Position { x, y }
}

/// Puts a spawn of `kind` at `at` unless something stands there already, and
/// says whether it did.
pub fn try_spawn(spawned: &mut Vec<Spawn>, at: Position, kind: SpawnKind) -> (added: bool)
    ensures
        added == !is_taken(old(spawned)@, at),
        added ==> final(spawned)@ == old(spawned)@.push(Spawn { position: at, kind }),
        !added ==> final(spawned)@ == old(spawned)@,
{
    let mut i: usize = 0;
    while i < spawned.len()
        invariant
            i <= spawned.len(),
            spawned@ == old(spawned)@,
            forall|j: int| 0 <= j < i ==> (#[trigger] spawned@[j]).position != at,
        decreases spawned.len() - i,
    {
        if spawned[i].position.x == at.x && spawned[i].position.y == at.y {
            assert(spawned@[i as int].position == at);
            return false;
        }
        i += 1;
    }
    spawned.push(Spawn { position: at, kind });
    true
}

/// Whether `bundle` is the tile of terrain `terrain` on the cell `position`.
pub open spec fn is_tile_of(bundle: TileBundle, terrain: TileType, position: Position) -> bool {
    &&& bundle.glyph == terrain.spec_glyph()
    &&& bundle.position == position
    &&& bundle.name@ == terrain.spec_name()
    &&& bundle.layer == crate::components::Layer(crate::components::LAYER_MAP)
    &&& bundle.blocker == terrain.is_wall()
    &&& bundle.opaque == terrain.is_wall()
}

/// The cell with index `i` in a layout `width` cells wide.
pub open spec fn cell_of_index(width: int, i: int) -> Position {
    Position { x: (i % width) as i32, y: (i / width) as i32 }
}

/// Makes the tiles of a layout, row by row.
pub fn tile_bundles(map: &MapInfo) -> (tiles: Vec<TileBundle>)
    requires
        map.is_valid(),
        map.width <= MAX_MAP_SIZE,
        map.height <= MAX_MAP_SIZE,
    ensures
        tiles@.len() == map.tiles@.len(),
        forall|i: int|
            0 <= i < tiles@.len() ==> is_tile_of(
                #[trigger] tiles@[i],
                map.tiles@[i],
                cell_of_index(map.width as int, i),
            ),
{
    let mut tiles: Vec<TileBundle> = Vec::new();
    let n = map.tiles.len();
    let mut i: usize = 0;
    while i < n
        invariant
            i <= n,
            n == map.tiles@.len(),
            map.is_valid(),
            map.width <= MAX_MAP_SIZE,
            map.height <= MAX_MAP_SIZE,
            tiles@.len() == i,
            forall|j: int|
                0 <= j < i ==> is_tile_of(#[trigger] tiles@[j], map.tiles@[j], cell_of_index(map.width as int, j)),
        decreases n - i,
    {
        assert(map.width > 0) by (nonlinear_arith)
            requires
                i < map.width * map.height,
        ;
        let column = i % map.width;
        let row = i / map.width;
        assert(row < map.height) by (nonlinear_arith)
            requires
                i < map.width * map.height,
                row == i / map.width,
                map.width > 0,
        ;
        let position = Position { x: column as i32, y: row as i32 };
        tiles.push(map.tiles[i].spawn(position));
        i += 1;
    }
    tiles
}

} // verus!
