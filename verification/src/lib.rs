//! Render-resource binding layer of a small real-time renderer: property
//! sets and materials, texture-unit allocation, uniform value caching, and
//! the fixed-layout light and camera blocks.
//!
//! The library keeps the books and decides; it never touches the graphics
//! device. What has to be done there it hands back as commands, which its
//! caller performs in order.
//!
//! Every floating-point quantity is carried as the bit pattern of an IEEE-754
//! single, in a `u32`, so that equality is exact and the layout of a packed
//! block is a matter of 32-bit words.

pub mod bits;
pub mod input;
pub mod names;
pub mod scene;
pub mod renderer;
