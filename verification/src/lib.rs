//! Hiking-time bookkeeping on whole numbers.
//!
//! A walk is a series of legs: two neighbouring waypoints, the ground
//! distance between them and the time that the slope-speed law gives for it.
//! This crate folds such legs into the figures of a path (distance, ascent,
//! descent, altitude range, smoothed altitude and walking time), lays out
//! the time table of a walk given as fixed-length splits, and knows the
//! terrain presets. Lengths and heights are whole millimetres, times whole
//! seconds, terrain adjustments thousandths.
//!
//! Two things are handed in by the caller as functions, because they live
//! on real numbers: the measure, which gives the ground distance between two
//! waypoints or gives up, and the slope-speed law, which gives the seconds
//! that a signed climb over a length takes. The customary law walks a metre
//! in `0.6 * exp(3.5 * (climb / length + adjustment))` seconds.

pub mod splits;
pub mod stats;
pub mod terrain;
pub mod track;
