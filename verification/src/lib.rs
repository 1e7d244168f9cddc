pub mod audio_buffer;
pub mod display;
pub mod dissonance;
pub mod fourier;
pub mod notes;
pub mod scores;
