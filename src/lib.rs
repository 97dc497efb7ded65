//! The simulation core of a small vertical shooter: an arena of entities,
//! a command queue applied once per tick, and the systems that move
//! entities, resolve bullet hits and animate explosions. Positions are
//! integers in sub-units of the screen; rendering, windowing and raw input
//! belong to the host.

use vstd::prelude::*;

pub mod components;
pub mod world;
pub mod systems;
pub mod player;
pub mod enemy;
pub mod game;

verus! {

} // verus!
