//! Verified core of a liquid-cooler control daemon.
//!
//! The library covers the device abstraction and the control loop's logic:
//! discovery of a supported USB device over plain identifiers, the
//! wire-level encoding of duty commands, and the per-tick control algorithm
//! (exponential smoothing, piecewise-linear profile interpolation, duty
//! quantization), all in fixed-point integer arithmetic. The unverified
//! host layer around it does the USB and sensor I/O and converts the
//! configuration's readings into the fixed-point working scale.

pub mod control;
pub mod kraken3;
pub mod numeric;
pub mod profile;
pub mod quantize;
pub mod registry;
pub mod settings;
pub mod smoother;
