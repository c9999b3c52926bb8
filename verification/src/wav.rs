//! The header of a WAV file that holds the SPU's output: 16-bit stereo PCM
//! at the SPU's output rate.
use crate::audio::spu::SPU_OUTPUT_HZ;
use crate::le_word;
use vstd::prelude::*;

verus! {

pub const AUDIO_RATE: u32 = SPU_OUTPUT_HZ;
pub const AUDIO_CHANNELS: u16 = 2u16;

/// The little-endian half-word at `offset`.
pub open spec fn le_half(bytes: Seq<u8>, offset: int) -> u16 {
    (bytes[offset] as u16) | ((bytes[offset + 1] as u16) << 8u16)
}

/// The RIFF chunk size of a file with `data_bytes` bytes of samples: the 36
/// header bytes after the size field plus the samples, saturating.
pub open spec fn riff_size(data_bytes: u32) -> u32 {
    if 36 + data_bytes > u32::MAX {
        u32::MAX
    } else {
        (36 + data_bytes) as u32
    }
}

/// A half-word split into its two bytes and put back together is unchanged.
proof fn lemma_half_of_bytes(value: u16)
    ensures
        ((value as u8) as u16) | (((value >> 8u16) as u8 as u16) << 8u16) == value,
{
    assert(((value as u8) as u16) | (((value >> 8u16) as u8 as u16) << 8u16) == value) by (bit_vector);
}

/// The 44-byte header of a WAV file with `data_bytes` bytes of samples:
/// "RIFF", the chunk size, "WAVE", a 16-byte "fmt " chunk for PCM with two
/// channels at the output rate, 4-byte frames of 16-bit samples, then
/// "data" and the sample byte count, all little-endian.
pub fn wav_header(data_bytes: u32) -> (r: [u8; 44])
    ensures
        r@.subrange(0, 4) == seq!['R' as u8, 'I' as u8, 'F' as u8, 'F' as u8],
        le_word(r@, 4) == riff_size(data_bytes),
        r@.subrange(8, 16) == seq!['W' as u8, 'A' as u8, 'V' as u8, 'E' as u8, 'f' as u8, 'm' as u8, 't' as u8, ' ' as u8],
        le_word(r@, 16) == 16,
        le_half(r@, 20) == 1,
        le_half(r@, 22) == AUDIO_CHANNELS,
        le_word(r@, 24) == AUDIO_RATE,
        le_word(r@, 28) == AUDIO_RATE * 4,
        le_half(r@, 32) == 4,
        le_half(r@, 34) == 16,
        r@.subrange(36, 40) == seq!['d' as u8, 'a' as u8, 't' as u8, 'a' as u8],
        le_word(r@, 40) == data_bytes,
{
    let block_align: u16 = AUDIO_CHANNELS * 2;
    let byte_rate: u32 = AUDIO_RATE * (block_align as u32);
    let riff: u32 = 36u32.saturating_add(data_bytes);
    let fmt_size: u32 = 16;
    let pcm: u16 = 1;
    let channels: u16 = AUDIO_CHANNELS;
    let rate: u32 = AUDIO_RATE;
    let bits: u16 = 16;
    let header: [u8; 44] = [
        'R' as u8, 'I' as u8, 'F' as u8, 'F' as u8,
        riff as u8, (riff >> 8u32) as u8, (riff >> 16u32) as u8, (riff >> 24u32) as u8,
        'W' as u8, 'A' as u8, 'V' as u8, 'E' as u8,
        'f' as u8, 'm' as u8, 't' as u8, ' ' as u8,
        fmt_size as u8, (fmt_size >> 8u32) as u8, (fmt_size >> 16u32) as u8, (fmt_size >> 24u32) as u8,
        pcm as u8, (pcm >> 8u16) as u8,
        channels as u8, (channels >> 8u16) as u8,
        rate as u8, (rate >> 8u32) as u8, (rate >> 16u32) as u8, (rate >> 24u32) as u8,
        byte_rate as u8, (byte_rate >> 8u32) as u8, (byte_rate >> 16u32) as u8, (byte_rate >> 24u32) as u8,
        block_align as u8, (block_align >> 8u16) as u8,
        bits as u8, (bits >> 8u16) as u8,
        'd' as u8, 'a' as u8, 't' as u8, 'a' as u8,
        data_bytes as u8, (data_bytes >> 8u32) as u8, (data_bytes >> 16u32) as u8, (data_bytes >> 24u32) as u8,
    ];
    proof {
        crate::bus::lemma_word_of_bytes(riff);
        crate::bus::lemma_word_of_bytes(fmt_size);
        crate::bus::lemma_word_of_bytes(rate);
        crate::bus::lemma_word_of_bytes(byte_rate);
        crate::bus::lemma_word_of_bytes(data_bytes);
        lemma_half_of_bytes(pcm);
        lemma_half_of_bytes(channels);
        lemma_half_of_bytes(block_align);
        lemma_half_of_bytes(bits);
        assert(header@.subrange(0, 4) =~= seq!['R' as u8, 'I' as u8, 'F' as u8, 'F' as u8]);
        assert(header@.subrange(8, 16) =~= seq!['W' as u8, 'A' as u8, 'V' as u8, 'E' as u8, 'f' as u8, 'm' as u8, 't' as u8, ' ' as u8]);
        assert(header@.subrange(36, 40) =~= seq!['d' as u8, 'a' as u8, 't' as u8, 'a' as u8]);
    }
    header
}

} // verus!
