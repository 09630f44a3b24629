//! Fixed-point N-body gravitational simulation core.
//!
//! All quantities are integers in fixed units (see `body`), so that the
//! force law, the explicit Euler integrator and the body registry can be
//! stated and proved exactly.
pub mod body;
pub mod gravity;
pub mod integrator;
pub mod laws;
pub mod presets;
pub mod registry;
pub mod root;
