//! A depth-sorted point-body renderer core with an animated camera.
//!
//! All scalar quantities (coordinates, clip planes, seconds of wall-clock
//! time) are fixed-point numbers: `i64` values scaled by [`ease::SCALE`].
//! The library owns the frame logic — easing, parameter interpolation, the
//! camera transition state machine, view/projection matrix construction,
//! back-to-front depth sorting and capacity-checked frame assembly — while
//! a host program supplies wall-clock timestamps and hands the prepared
//! frame to the graphics API.

pub mod ease;
pub mod renderer;
pub mod scene;
pub mod simulation;
pub mod vecmat;
