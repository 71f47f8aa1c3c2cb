//! Turn scheduling, action resolution and combat for a tile-based roguelike.
//!
//! One cycle of play runs its phases in this order, each on plain values that
//! the caller gathers from its world and writes back to it:
//!
//! 1. [`grid::GridIndex::rebuild`] indexes who stands where;
//! 2. [`visibility::update_fov`] and [`visibility::update_visibility`] bring
//!    what is seen up to date;
//! 3. [`turn::turn_begin`] decides who may act;
//! 4. [`player::keyboard_handling`] and [`monster::monster_ai`] turn input and
//!    monster decisions into requests to move;
//! 5. [`movement::handle_want_to_move`] resolves the requests into attacks and moves;
//! 6. [`combat::combat`] resolves the attacks and [`movement::movement`] the moves;
//! 7. [`combat::track_dead`] sweeps up the dead;
//! 8. [`turn::turn_end`] closes the turns.

pub mod combat;
pub mod components;
pub mod dungeon;
pub mod entity_set;
pub mod events;
pub mod grid;
pub mod inventory;
pub mod items;
pub mod log;
pub mod map_tile;
pub mod monster;
pub mod movement;
pub mod paths;
pub mod player;
pub mod resources;
pub mod side_panel;
pub mod states;
pub mod text;
pub mod turn;
pub mod visibility;
