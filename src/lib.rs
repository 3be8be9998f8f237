//! Detection post-processing, targeting and motion planning for a
//! frame-driven pointing device controller.

pub mod geometry;
pub mod detect;
pub mod aim;
pub mod motion;
pub mod command;
pub mod relay;
pub mod control;
