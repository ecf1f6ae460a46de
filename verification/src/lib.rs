//! Layout and repaint engine for an X11 status bar.
//!
//! The bar hosts three ordered regions of panels (left, center, right).
//! Each panel produces draw information (width, height, a dependence rule
//! and callback handles); the engine decides which panels are shown, where
//! each one is placed, and which minimal set of repaint operations a
//! renderer must perform.  All decisions are made here, verified; the
//! renderer and the windowing connection live outside and consume the
//! [`bar::DrawCmd`] lists this crate produces.

pub mod bar;
pub mod events;
pub mod panel;
pub mod ramp;
pub mod text;
