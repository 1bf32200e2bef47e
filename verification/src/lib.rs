//! Simulation core of a side-scrolling reflex game.
//!
//! An actor falls under gravity, reacts to discrete jump impulses, and must
//! avoid a pool of recycled obstacle pairs while a score and a persisted
//! high score are tracked.  A small finite state machine gates which parts
//! of the simulation run on each frame step.
//!
//! All quantities are exact integers in fixed-point units:
//! - lengths in nano-units (one world unit is 1_000_000_000 nano-units),
//! - velocities in nano-units per millisecond,
//! - angles in nano-degrees,
//! - time steps in milliseconds.
//!
//! With these units every update of the step algorithm is a product or a sum
//! of integers, so the whole simulation is deterministic and verified free
//! of overflow and of panics.
use vstd::prelude::*;

pub mod geometry;
pub mod input;
pub mod pipes;
pub mod player;
pub mod rng;
pub mod sim;
pub mod storage;

verus! {

/// Nano-units per world unit.
pub const UNIT: i64 = 1_000_000_000;

/// Height of the playfield in nano-units (400 world units).
pub const SCREEN_HEIGHT: i64 = 400_000_000_000;

/// Largest time step accepted by the simulation, in milliseconds
/// (about 2.8 hours; keeps every product of a velocity and a time
/// step far inside the `i64` range).
pub const DT_LIMIT: i64 = 10_000_000;

/// The larger of two mathematical integers.
pub open spec fn max_i(a: int, b: int) -> int {
    if a > b {
        a
    } else {
        b
    }
}

/// `v` forced into the interval `[lo, hi]`.
pub open spec fn clamp_i(v: int, lo: int, hi: int) -> int {
    if v < lo {
        lo
    } else if v > hi {
        hi
    } else {
        v
    }
}

/// The states of the game's finite state machine.  Exactly one is active at
/// a time and it decides which parts of the simulation run on a step.
#[derive(Clone, Copy, Debug, PartialEq, Eq, Structural)]
pub enum GameState {
    /// Entered at start; a fixed-duration timer transitions to `Menu`.
    Splash,
    /// Idle; a discrete confirm input transitions to `Game`.
    Menu,
    /// Shows the last run's score; confirm transitions back to `Game`.
    DeathScreen,
    /// The playing state: all simulation systems run every step.
    Game,
}

/// Per-run score counter; reset to zero on entering the playing state.
#[derive(Clone, Copy, Debug, PartialEq, Eq, Structural)]
pub struct Score(pub usize);

/// Best score seen across runs; persisted by an outside collaborator.
#[derive(Clone, Copy, Debug, PartialEq, Eq, Structural)]
pub struct Highscore(pub usize);

} // verus!
