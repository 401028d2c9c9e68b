//! The world: the grouped stores of scene collaborators a frame is
//! rendered against. The renderer core reads them only through the
//! collaborator traits; the program around the library decides what the
//! stores hold.

use vstd::prelude::*;

verus! {

/// The scene's collaborator stores: the hitable geometry (the renderer's
/// `Scene`), the materials the integrator shades with, and the cameras
/// primary rays are requested from.
pub struct World<H, M, C> {
    pub hitables: H,
    pub materials: M,
    pub cameras: C,
}

} // verus!
