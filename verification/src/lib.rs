//! Host-side core of a progressive Monte Carlo volume renderer.
//!
//! The crate plans the passes of a photon-transport simulation that a
//! compute device executes, keeps track of the two alternating photon-state
//! generations, and turns the radiance that comes back from the device into
//! an 8-bit RGB image.  Real numbers cross the crate's boundary as IEEE 754
//! binary32 bit patterns held in `u32` words.

pub mod error;
pub mod ieee;
pub mod job;
pub mod layout;
pub mod ppm;
pub mod readback;
pub mod scene;
pub mod schedule;
pub mod tone;
pub mod uniforms;
