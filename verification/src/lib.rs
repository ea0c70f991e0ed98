//! Mouse tracking for 2D orthographic cameras.
//!
//! The library keeps, for every tracked camera, the cursor position in screen
//! space and its image in world space, and mirrors the values of one
//! designated main camera into a pair of global lookup slots.  All of the
//! per-frame update rules are plain functions over integer coordinates, with
//! their behaviour stated in contracts and proved.

pub mod geometry;
pub mod mouse_motion;
pub mod mouse_pos;

pub use geometry::{MousePos, MousePosWorld, Projection, Transform};
pub use mouse_motion::{MouseMotion, MouseMotionPlugin};
pub use mouse_pos::{
    ExcludeMouseTracking, InitMouseTracking, InitWorldTracking, MainCamera, MousePosPlugin,
};
