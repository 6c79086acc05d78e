//! Core of an escape-time fractal renderer: a packed RGB color model, a
//! framebuffer addressed by pixel position or linear index, the fractal and
//! coloring selections with their cyclic enumeration, histogram coloring,
//! and the integer part of the interactive view state.
//!
//! Everything floating-point (the camera transform, the escape-time
//! iteration itself, the trigonometric coloring schemes) lives in the
//! unverified shell around this crate and feeds the results back in as
//! plain values.

pub mod framebuffer;
pub mod math;
pub mod state;
pub mod text;

pub use framebuffer::Backend;
pub use framebuffer::Color;
pub use framebuffer::FrameBuffer;
pub use math::ColorType;
pub use math::FractalType;
pub use state::State;
pub use state::StateCommand;
pub use text::Text;
