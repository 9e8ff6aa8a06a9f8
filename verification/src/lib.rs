//! Core of an interactive raster-painting surface: generation of anti-aliased
//! circular brush stamps, compositing them onto a pixel canvas, a stroke state
//! machine that spaces repeated stamp placements by traveled distance, and a
//! discretized, focal-point-preserving zoom/pan view transform.
//!
//! All geometry is carried out in integer arithmetic: viewport and canvas
//! rectangle coordinates are fixed-point subpixels (see [`view`]), radial
//! distances inside a stamp are rationals over the stamp side length, and
//! opacities are 8-bit alpha values.

pub mod canvas;
pub mod falloff;
pub mod lexer;
pub mod math;
pub mod patch;
pub mod session;
pub mod stamp;
pub mod stroke;
pub mod view;
