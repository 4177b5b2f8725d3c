//! Sequence playback and capture engine for a virtual game controller.
//!
//! The crate turns run-length encoded controller input into timed device
//! reports. It holds the frame model with its table codec, the button mapping
//! layer, the report encoding and the connection state machine of the
//! virtual device adapter, the playback state machine with the laws of its
//! timing, and the decisions of the scheduler that drives it. On the capture
//! side it holds the input state that an analysis of recorded play builds
//! up, and the recorder that turns states into frames.
//!
//! The engine decides and the host performs: reading files, writing to the
//! device and waiting for the timer are left to the caller.

pub mod analyzer;
pub mod button_map;
pub mod config;
pub mod controller;
pub mod csv_loader;
pub mod decimal;
pub mod mapping;
pub mod model;
pub mod order;
pub mod player;
pub mod scheduler;
pub mod timing;
pub mod types;
