//! What the library asks of the graphics device. The library decides and
//! keeps the books; its caller performs the commands, in the order given.

use vstd::prelude::*;
use crate::renderer::shader::UniformValue;

verus! {

/// One call on the graphics device.
#[derive(Clone, Copy, Debug, PartialEq, Eq)]
pub enum DeviceCommand {
    /// Make a shader program the current one.
    UseProgram { program: u32 },
    /// Write a value to a uniform of the current program.
    SetUniform { location: i32, value: UniformValue },
    /// Make a texture the current one of a texture unit.
    BindTexture { unit: u32, texture: u32 },
}

} // verus!
