//! Core of a pixel-driven inventory scanner: a resolution-independent
//! coordinate model, a grid-traversal state machine, an integer
//! image-normalization pipeline for text recognition, and the worker logic
//! that deduplicates recognized records and decides when to stop.
//!
//! All coordinates are kept in milli-pixel fixed point (one pixel is 1000
//! units) so that calibrated geometry can be rescaled to a live window size
//! with exact integer arithmetic.

pub mod artifact;
pub mod bitmap;
pub mod capture;
pub mod controller;
pub mod error;
pub mod export;
pub mod game_info;
pub mod geometry;
pub mod lock_list;
pub mod ocr;
pub mod parse;
pub mod preprocess;
pub mod scan_result;
pub mod scanner;
pub mod window_info;
pub mod worker;
