//! What a scene hands to the renderer once per frame.

use vstd::prelude::*;

pub mod light;

pub use light::Light;

verus! {

/// The one ambient light of a scene. Colour and intensity are bit patterns
/// of singles.
#[derive(Clone, Copy, Debug, PartialEq, Eq)]
pub struct AmbientLight {
    pub color: [u32; 3],
    pub intensity: u32,
}

impl AmbientLight {
    /// White light of intensity zero.
    pub fn new() -> (ambient: AmbientLight)
        ensures
            ambient.color@ == seq![crate::bits::ONE, crate::bits::ONE, crate::bits::ONE],
            ambient.intensity == crate::bits::ZERO,
    {
        let color: [u32; 3] = [crate::bits::ONE, crate::bits::ONE, crate::bits::ONE];
        assert(color@ =~= seq![crate::bits::ONE, crate::bits::ONE, crate::bits::ONE]);
        AmbientLight { color, intensity: crate::bits::ZERO }
    }
}

} // verus!
