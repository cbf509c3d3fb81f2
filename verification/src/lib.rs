//! A small 2D game-object framework core: camera coordinate transforms,
//! per-frame input state tracking, declarative render instructions, a
//! compositing pass with layered draw-order resolution and UI-anchor layout,
//! and debug overlays (FPS counter, rolling column graph).
//!
//! All coordinates and scale factors are exact integers and rationals, so
//! every placement rule is stated and proved as a precise contract. A host
//! application owns the window, the event loop and the drawing surface; it
//! feeds events and delta times in and interprets the emitted draw calls.

pub mod camera;
pub mod compositor;
pub mod geom;
pub mod input;
pub mod overlay;
pub mod render;
pub mod scene;
pub mod systems;

use vstd::prelude::*;

verus! {

/// Elapsed time of the previous frame, in milliseconds.
#[derive(Clone, Copy, Debug, PartialEq, Eq, Structural)]
pub struct DeltaTime(pub u64);

impl Default for DeltaTime {
    fn default() -> (r: DeltaTime)
        ensures
            r.0 == 0,
    {
        DeltaTime(0)
    }
}

} // verus!
