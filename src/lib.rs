//! Cross-fading a live camera image with an animated test pattern: the fade
//! controller, the pattern, the per-pixel compositor, and the switcher state
//! that ties them to a frame loop.

pub mod compositor;
pub mod fade;
pub mod pattern;
pub mod switcher;
