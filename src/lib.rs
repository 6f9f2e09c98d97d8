//! Geodesic distance engine: the execution-policy layer.
//!
//! The distance models themselves work on floating-point coordinates; this crate holds
//! the parts of the engine that decide how that work is laid out and put back together:
//! execution settings, the serial/parallel switch and its chunking, the symmetric
//! self-comparison path, result orientation, index extraction, broadcasting of
//! displacement vectors, and the convergence control of the iterative solvers.

pub mod chunking;
pub mod conversions;
pub mod convergence;
pub mod dispatch;
pub mod displacement;
pub mod grid;
pub mod settings;
pub mod slicing;
