//! Fixed-point FM synthesis voice: a two-operator oscillator shaped by an
//! ADSR envelope, with every per-sample step stated over exact integer models.

pub mod envelope;
pub mod envelope_timing;
pub mod fixed;
pub mod oscillator;
pub mod oscillator_phase;
pub mod params;
pub mod synth;
