//! Sampled instruments.
//!
//! As everywhere in the library, a sample is held as the bit pattern of a 32-bit float.

pub mod bank;
pub mod instrument;
pub mod sample;
pub mod synth;
pub mod wav;
pub mod wav_file;

pub use bank::{FolderEntry, SampleFile, SamplerBank, SamplerBankError};
pub use instrument::{Sampler, SamplerError};
pub use sample::{Sample, SampleError};
pub use synth::{note_action, NoteAction, SamplerSynth};
pub use wav::{Channel, WavData, WavDataError};
pub use wav_file::{Pcm, WavFile};
