//! Compiling coordinate operations into pipelines of steps, and executing them.
//!
//! A pipeline takes a coordinate from one reference system to another. This crate
//! decides which steps that takes, in which order, and what becomes of height on
//! the way. Floating-point work, loading grids and setting up projections are left
//! to the caller: [`compile`] and [`execute`] name the piece of work that is due,
//! and go on once its reply is recorded.
pub mod text;
pub mod error;
pub mod binary64;
pub mod coord;
pub mod ellipsoid;
pub mod crs;
pub mod operation;
pub mod registry;
pub mod numerics;
pub mod services;
pub mod step;
pub mod validate;
pub mod units;
pub mod height;
pub mod framing;
pub mod parallel;
pub mod pipeline;
pub mod execute;
pub mod emission;
pub mod compile;
pub mod laws;
