//! The player: what it starts with, and what its commands ask for.

use vstd::prelude::*;
use vstd::string::StringExecFns;
use crate::combat::{Attack, CombatStatsBundle, Dice, Health};
use crate::components::{Energy, Fov, Layer, MovingEntityBundle, Position, WantToMove, LAYER_PLAYER};

verus! {

/// How far the player sees, in cells.
pub const PLAYER_SIGHT: u32 = 8;

/// What the player is made of when it enters the world.
pub struct PlayerBundle {
    pub name: String,
    pub fov: Fov,
    pub glyph: char,
    pub layer: Layer,
    pub combat_stats: CombatStatsBundle,
    pub moving: MovingEntityBundle,
}

/// Whether `bundle` is a fresh player at `position`: twenty hit points, an
/// attack of one six-sided die, speed fifty, no energy and nothing in view yet.
pub open spec fn is_player_at(bundle: PlayerBundle, position: Position) -> bool {
    &&& bundle.name@ == "Player"@
    &&& bundle.fov.range == PLAYER_SIGHT
    &&& bundle.fov.visible_tiles@.len() == 0
    &&& bundle.glyph == '@'
    &&& bundle.layer == Layer(LAYER_PLAYER)
    &&& bundle.combat_stats.health == (Health { current: 20, max: 20 })
    &&& bundle.combat_stats.attack.spec_dice().count() == 1
    &&& bundle.combat_stats.attack.spec_dice().sides() == 6
    &&& bundle.combat_stats.attack.spec_dice().modifier() == 0
    &&& bundle.moving.position == position
    &&& bundle.moving.energy == Energy(0)
    &&& bundle.moving.speed.0 == 50
}

/// A fresh player at `position`.
pub fn spawn_player(position: Position) -> (bundle: PlayerBundle)
    ensures
        is_player_at(bundle, position),
{
    assert(Dice::well_formed(1, 6, 0)) by (nonlinear_arith);
    PlayerBundle {
        name: String::from_str("Player"),
        fov: Fov::new(PLAYER_SIGHT),
        glyph: '@',
        layer: Layer(LAYER_PLAYER),
        combat_stats: CombatStatsBundle { health: Health::new(20), attack: Attack::new(Dice::plain(1, 6)) },
        moving: MovingEntityBundle::new(50).with_position(position),
    }
}

impl Default for PlayerBundle {
    /// A fresh player at the origin.
    fn default() -> (bundle: Self)
        ensures
            is_player_at(bundle, Position { x: 0, y: 0 }),
    {
        spawn_player(Position { x: 0, y: 0 })
    }
}

/// The keys that the player's turn listens to.
#[derive(Clone, Copy, Debug, PartialEq, Eq, Structural)]
pub enum Key {
    W,
    A,
    S,
    D,
    G,
    I,
    Up,
    Down,
    Left,
    Right,
    Numpad1,
    Numpad2,
    Numpad3,
    Numpad4,
    Numpad5,
    Numpad6,
    Numpad7,
    Numpad8,
    Numpad9,
    Other,
}

/// What a key press asks for.
#[derive(Clone, Copy, Debug, PartialEq, Eq, Structural)]
pub enum Command {
    /// A step by `(dx, dy)`.
    Step { dx: i32, dy: i32 },
    /// Let the turn pass.
    Wait,
    /// Pick up what lies here.
    Pickup,
    /// Open the backpack.
    Inventory,
    /// Not a command.
    Ignored,
}

/// The command of each key: the letter keys and arrows step along the axes,
/// the number pad steps in all eight directions with the five in the middle
/// to wait, `G` picks up and `I` opens the backpack.
pub open spec fn command_of(key: Key) -> Command {
    match key {
        Key::W | Key::Numpad8 | Key::Up => Command::Step { dx: 0, dy: 1 },
        Key::S | Key::Numpad2 | Key::Down => Command::Step { dx: 0, dy: -1i32 },
        Key::A | Key::Numpad4 | Key::Left => Command::Step { dx: -1i32, dy: 0 },
        Key::D | Key::Numpad6 | Key::Right => Command::Step { dx: 1, dy: 0 },
        Key::Numpad7 => Command::Step { dx: -1i32, dy: 1 },
        Key::Numpad9 => Command::Step { dx: 1, dy: 1 },
        Key::Numpad1 => Command::Step { dx: -1i32, dy: -1i32 },
        Key::Numpad3 => Command::Step { dx: 1, dy: -1i32 },
        Key::Numpad5 => Command::Wait,
        Key::G => Command::Pickup,
        Key::I => Command::Inventory,
        Key::Other => Command::Ignored,
    }
}

/// Turns a key press into a command.
pub fn keyboard_handling(key: Key) -> (command: Command)
    ensures
        command == command_of(key),
{
    match key {
        Key::W | Key::Numpad8 | Key::Up => Command::Step { dx: 0, dy: 1 },
        Key::S | Key::Numpad2 | Key::Down => Command::Step { dx: 0, dy: -1 },
        Key::A | Key::Numpad4 | Key::Left => Command::Step { dx: -1, dy: 0 },
        Key::D | Key::Numpad6 | Key::Right => Command::Step { dx: 1, dy: 0 },
        Key::Numpad7 => Command::Step { dx: -1, dy: 1 },
        Key::Numpad9 => Command::Step { dx: 1, dy: 1 },
        Key::Numpad1 => Command::Step { dx: -1, dy: -1 },
        Key::Numpad3 => Command::Step { dx: 1, dy: -1 },
        Key::Numpad5 => Command::Wait,
        Key::G => Command::Pickup,
        Key::I => Command::Inventory,
        Key::Other => Command::Ignored,
    }
}

/// The request that a command makes of a player at `from`: a step asks for
/// the neighbouring cell, provided that cell has coordinates; nothing else
/// asks for a cell.
pub open spec fn request_of(command: Command, from: Position) -> Option<WantToMove> {
    match command {
        Command::Step { dx, dy } => if (dx != 0 || dy != 0) && i32::MIN <= from.x + dx <= i32::MAX
            && i32::MIN <= from.y + dy <= i32::MAX {
            Some(WantToMove { position: Position { x: (from.x + dx) as i32, y: (from.y + dy) as i32 } })
        } else {
            None
        },
        _ => None,
    }
}

/// The request to move that a command makes of a player at `from`.
pub fn player_request(command: Command, from: &Position) -> (want: Option<WantToMove>)
    ensures
        want == request_of(command, *from),
{
    match command {
        Command::Step { dx, dy } => {
            if dx == 0 && dy == 0 {
                return None;
            }
            match (from.x.checked_add(dx), from.y.checked_add(dy)) {
                (Some(x), Some(y)) => Some(WantToMove { position: Position { x, y } }),
                _ => None,
            }
        },
        _ => None,
    }
}

} // verus!
