//! Encoder kinds, and the encoder callback traits that use plain values.

use vstd::prelude::*;

verus! {

/// Encoder kind.
#[derive(Debug, Clone, Copy, Eq, PartialEq, Structural)]
pub enum EncoderType {
    Audio,
    Video,
}

pub trait GetExtraDataEncoder: Sized {
    /// Append codec-extradata (SPS/PPS, AAC config, etc.) into `out` and
    /// return `true`. Return `false` if no extra data is available.
    fn get_extra_data(&mut self, out: &mut Vec<u8>) -> bool;
}

pub trait GetSeiDataEncoder: Sized {
    /// Append SEI payload bytes into `out` and return `true`. Return `false`
    /// if no SEI is available.
    fn get_sei_data(&mut self, out: &mut Vec<u8>) -> bool;
}

/// Audio-only: number of audio frames the encoder consumes per call.
pub trait GetFrameSizeEncoder: Sized {
    fn get_frame_size(&self) -> usize;
}

} // verus!
