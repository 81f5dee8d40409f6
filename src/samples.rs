use vstd::prelude::*;
use crate::audio::{AudioInfo, UnwrappedAudioInfo};
use crate::errors::HandlerError;
use crate::window::WindowPacket;

verus! {

/// The signed 16-bit sample stored little-endian in the bytes `lo`, `hi`.
pub open spec fn sample_value(lo: u8, hi: u8) -> int {
    let v = lo as int + 256 * hi as int;
    if v >= 0x8000 {
        v - 0x10000
    } else {
        v
    }
}

/// The samples of a 16-bit little-endian PCM buffer; a trailing odd byte is ignored.
pub open spec fn samples_of(bytes: Seq<u8>) -> Seq<i16> {
    Seq::new(
        bytes.len() / 2,
        |i: int| sample_value(bytes[2 * i], bytes[2 * i + 1]) as i16,
    )
}

/// What the analysis of one window needs.
#[derive(Clone, Debug, PartialEq, Eq)]
pub struct AnalysisInput {
    /// The window's samples, in order.
    pub samples: Vec<i16>,
    /// The samples per second of the stream.
    pub sample_rate: u32,
}

/// Reads the sample stored little-endian in `lo`, `hi`.
fn sample_from_le_bytes(lo: u8, hi: u8) -> (r: i16)
    ensures
        r as int == sample_value(lo, hi),
{
    let v: i32 = lo as i32 + 256 * hi as i32;
    if v >= 0x8000 {
        (v - 0x10000) as i16
    } else {
        v as i16
    }
}

/// Splits a PCM buffer into its 16-bit little-endian samples.
pub fn binary_transformer(binary: &Vec<u8>, _audio_info: &UnwrappedAudioInfo) -> (r: Vec<i16>)
    ensures
        r@ == samples_of(binary@),
{
    let len = binary.len();
    let n = len / 2;
    let mut r: Vec<i16> = Vec::new();
    for i in 0..n
        invariant
            len == binary@.len(),
            n == len / 2,
            r@.len() == i,
            forall|j: int| 0 <= j < i ==> r@[j] == samples_of(binary@)[j],
    {
        assert(2 * i + 1 < len) by {
            vstd::arithmetic::div_mod::lemma_fundamental_div_mod(binary@.len() as int, 2);
        }
        let s = sample_from_le_bytes(binary[2 * i], binary[2 * i + 1]);
        r.push(s);
    }
    assert(r@ =~= samples_of(binary@));
    r
}

/// One step of the analysis stage: the format that the handshake announced is
/// resolved, and the window's bytes become the samples to analyse.
pub fn window_data_processing(window_packet: &WindowPacket, audio_info: &AudioInfo) -> (r: Result<
    AnalysisInput,
    Box<HandlerError>,
>)
    ensures
        match r {
            Ok(input) => {
                &&& audio_info.is_set()
                &&& input.samples@ == samples_of(window_packet.0@)
                &&& audio_info.sample_rate == Some(input.sample_rate)
            },
            Err(e) => !audio_info.is_set() && *e == HandlerError::AudioInfoUndefinedError,
        },
{
    let info = audio_info.get_audio_info()?;
    let samples = binary_transformer(&window_packet.0, &info);
    Ok(AnalysisInput { samples, sample_rate: info.sample_rate })
}

} // verus!
