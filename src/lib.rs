//! Narrates a story while it is still being generated: the text arrives in
//! fragments, is cut into utterances at safe break points, each utterance is
//! synthesized (with a retry), and the audio clips are stitched into one
//! continuous WAV stream.
pub mod assemble;
pub mod chunk;
pub mod segment;
pub mod session;
pub mod synth;
pub mod text;
pub mod transcode;
