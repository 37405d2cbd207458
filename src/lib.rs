use vstd::prelude::*;

pub mod collision;
pub mod detector;
pub mod frames;
pub mod grid;
pub mod solver;
pub mod trace;
pub mod validate;

verus! {

/// How the host runs a simulation: in a window or full screen, at a given frame rate.
#[derive(Debug, Clone, Copy, PartialEq, Eq, Structural)]
pub struct SimulationConfig {
    pub fullscreen: bool,
    pub fps: u64,
}

} // verus!
