//! Dashboard rendering and usage-pace analytics for a small fixed-resolution
//! display: a 240x240 RGBA canvas, anti-aliased geometric primitives, a disk
//! usage pie chart, usage-window progress bars, and a pace estimator that
//! projects whether a time-boxed quota lasts until it resets.
//!
//! All arithmetic is exact fixed-point integer arithmetic; blend weights and
//! anti-aliasing coverage use a 0..=256 scale, percentages are carried in
//! hundredths of a percent, and angles in 1/65536 of a turn.
pub mod bars;
pub mod canvas;
pub mod color;
pub mod config;
pub mod diskparse;
pub mod mask;
pub mod pace;
pub mod pie;
pub mod style;
pub mod textfmt;
pub mod textw;
pub mod timefmt;
