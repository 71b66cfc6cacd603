//! Core engine for rhythm practice against a notated drum chart.
//!
//! The library models musical quantities as fixed-point integers so that the
//! timing algorithms can be stated and proved exactly:
//! - instants and durations are microseconds (`u64`),
//! - tempo is thousandths of a beat per minute (`u32`),
//! - beat positions are millionths of a beat (`u64`),
//! - accuracies and percentages are thousandths (per-mille, `u32`).

pub mod analytics;
pub mod audio;
pub mod error;
pub mod events;
pub mod export;
pub mod lesson;
pub mod matcher;
pub mod midi;
pub mod notation;
pub mod practice;
pub mod scoring;
pub mod services;
pub mod session;
pub mod sorting;
pub mod tempo;
pub mod transcriber;
