//! The kinds of terrain.

use vstd::prelude::*;
use vstd::string::StringExecFns;
use crate::components::{Layer, Position, LAYER_MAP};

verus! {

/// The terrain of one cell.
#[derive(Clone, Copy, Debug, PartialEq, Eq, Structural)]
pub enum TileType {
    Wall,
    Floor,
    Grass,
}

/// What a terrain tile is made of when it enters the world.
#[derive(Debug)]
pub struct TileBundle {
    pub glyph: char,
    pub position: Position,
    pub name: String,
    pub layer: Layer,
    pub blocker: bool,
    pub opaque: bool,
}

impl TileType {
    /// The name of this terrain.
    pub open spec fn spec_name(self) -> Seq<char> {
        match self {
            TileType::Wall => "Wall"@,
            TileType::Floor => "Floor"@,
            TileType::Grass => "Grass"@,
        }
    }

    /// The glyph that this terrain is drawn with.
    pub open spec fn spec_glyph(self) -> char {
        match self {
            TileType::Wall => '#',
            TileType::Floor => '.',
            TileType::Grass => '"',
        }
    }

    /// Walls block; everything else can be walked on and seen through.
    pub open spec fn is_wall(self) -> bool {
        self == TileType::Wall
    }

    /// The name of this terrain.
    pub fn as_name(&self) -> (name: &'static str)
        ensures
            name@ == self.spec_name(),
    {
        match self {
            TileType::Wall => "Wall",
            TileType::Floor => "Floor",
            TileType::Grass => "Grass",
        }
    }

    /// The glyph that this terrain is drawn with.
    pub fn glyph(&self) -> (glyph: char)
        ensures
            glyph == self.spec_glyph(),
    {
        match self {
            TileType::Wall => '#',
            TileType::Floor => '.',
            TileType::Grass => '"',
        }
    }

    /// Whether this terrain blocks movement.
    pub fn is_blocking(&self) -> (blocking: bool)
        ensures
            blocking == self.is_wall(),
    {
        match self {
            TileType::Wall => true,
            TileType::Floor | TileType::Grass => false,
        }
    }

    /// Whether this terrain blocks sight.
    pub fn is_opaque(&self) -> (opaque: bool)
        ensures
            opaque == self.is_wall(),
    {
        match self {
            TileType::Wall => true,
            TileType::Floor | TileType::Grass => false,
        }
    }

    /// The tile of this terrain on the cell `position`.
    pub fn spawn(&self, position: Position) -> (tile: TileBundle)
        ensures
            tile.glyph == self.spec_glyph(),
            tile.position == position,
            tile.name@ == self.spec_name(),
            tile.layer == Layer(LAYER_MAP),
            tile.blocker == self.is_wall(),
            tile.opaque == self.is_wall(),
    {
        TileBundle {
            glyph: self.glyph(),
            position,
            name: String::from_str(self.as_name()),
            layer: Layer(LAYER_MAP),
            blocker: self.is_blocking(),
            opaque: self.is_opaque(),
        }
    }
}

} // verus!
