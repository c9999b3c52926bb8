//! The sound processing unit: envelopes, ADPCM voices, reverb, and the mixer.

pub mod envelope;
pub mod voice;
pub mod reverb;
pub mod spu;

pub use spu::{Spu, SPU_CYCLES_PER_SAMPLE, SPU_OUTPUT_HZ};
