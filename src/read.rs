//! Decoding single chunks from a byte sequence.

use vstd::prelude::*;
use vstd::slice::{slice_subrange, slice_to_vec};

use crate::chunk::{
    data_at, extensible_at, fact_at, format_at, format_magic, has_magic, peak_at, peak_record_at,
    riff_at, step_at, BitDepth, ChunkView, DataChunk, ExtensibleFormat, FactChunk,
    FormatChunk, Peak, PeakChunk, RiffChunk, WaveFormat, WaverlyError,
};
use crate::le::{read_u16_le, read_u32_le};

verus! {

/// One decoded chunk.
#[derive(Debug, Clone, PartialEq, Eq)]
pub enum Chunk {
    Riff(RiffChunk),
    Format(FormatChunk),
    Fact(FactChunk),
    Peak(PeakChunk),
    Data(DataChunk),
}

impl View for Chunk {
    type V = ChunkView;

    open spec fn view(&self) -> ChunkView {
        match self {
            Chunk::Riff(c) => ChunkView::Riff(*c),
            Chunk::Format(c) => ChunkView::Format(c@),
            Chunk::Fact(c) => ChunkView::Fact(*c),
            Chunk::Peak(c) => ChunkView::Peak(c@),
            Chunk::Data(c) => ChunkView::Data(c@),
        }
    }
}

/// What a decoder of one chunk kind promises: the chunk and the position after
/// it, or the error, exactly as `spec_result` gives them.
pub open spec fn decoded_as(r: Result<(Chunk, usize), WaverlyError>, spec_result: Result<(ChunkView, int), WaverlyError>) -> bool {
    match r {
        Ok((c, n)) => spec_result == Ok::<(ChunkView, int), WaverlyError>((c@, n as int)),
        Err(e) => spec_result == Err::<(ChunkView, int), WaverlyError>(e),
    }
}

fn magic4(s: &[u8], pos: usize, m0: u8, m1: u8, m2: u8, m3: u8) -> (r: bool)
    requires
        pos <= s@.len(),
    ensures
        r == has_magic(s@, pos as int, seq![m0, m1, m2, m3]),
{
    if s.len() - pos < 4 {
        return false;
    }
    let r = s[pos] == m0 && s[pos + 1] == m1 && s[pos + 2] == m2 && s[pos + 3] == m3;
    let ghost sub = s@.subrange(pos as int, pos + 4);
    if r {
        assert(sub =~= seq![m0, m1, m2, m3]);
    } else {
        assert(sub[0] != m0 || sub[1] != m1 || sub[2] != m2 || sub[3] != m3);
    }
    r
}

fn format_magic_at(s: &[u8], pos: usize) -> (r: bool)
    requires
        pos <= s@.len(),
    ensures
        r == has_magic(s@, pos as int, format_magic()),
{
    if s.len() - pos < 8 {
        return false;
    }
    let r = s[pos] == 87 && s[pos + 1] == 65 && s[pos + 2] == 86 && s[pos + 3] == 69 && s[pos + 4]
        == 102 && s[pos + 5] == 109 && s[pos + 6] == 116 && s[pos + 7] == 32;
    let ghost sub = s@.subrange(pos as int, pos + 8);
    if r {
        assert(sub =~= format_magic());
    } else {
        assert(sub[0] != 87 || sub[1] != 65 || sub[2] != 86 || sub[3] != 69 || sub[4] != 102
            || sub[5] != 109 || sub[6] != 116 || sub[7] != 32);
    }
    r
}

fn read_riff(s: &[u8], pos: usize) -> (r: Result<(Chunk, usize), WaverlyError>)
    requires
        pos <= s@.len(),
    ensures
        decoded_as(r, riff_at(s@, pos as int)),
{
    if s.len() - pos < 8 {
        return Err(WaverlyError::UnexpectedEof { pos });
    }
    let size = read_u32_le(s, pos + 4);
    Ok((Chunk::Riff(RiffChunk { size }), pos + 8))
}

fn read_extensible(s: &[u8], pos: usize) -> (r: ExtensibleFormat)
    requires
        pos + 24 <= s@.len(),
    ensures
        r@ == extensible_at(s@, pos as int),
{
    let len = s.len();
    let size = read_u16_le(s, pos);
    let valid_bits_per_sample = read_u16_le(s, pos + 2);
    let channel_mask = read_u32_le(s, pos + 4);
    let mut guid: [u8; 16] = [0u8; 16];
    let mut i: usize = 0;
    while i < 16
        invariant
            pos + 24 <= s@.len(),
            len == s@.len(),
            i <= 16,
            forall|k: int| 0 <= k < i ==> guid@[k] == s@[pos + 8 + k],
        decreases 16 - i,
    {
        guid[i] = s[pos + 8 + i];
        i = i + 1;
    }
    assert(guid@ =~= s@.subrange(pos + 8, pos + 24));
    ExtensibleFormat { size, valid_bits_per_sample, channel_mask, sub_format_guid: guid }
}

fn read_format(s: &[u8], pos: usize) -> (r: Result<(Chunk, usize), WaverlyError>)
    requires
        pos <= s@.len(),
    ensures
        decoded_as(r, format_at(s@, pos as int)),
{
    if s.len() - pos < 28 {
        return Err(WaverlyError::UnexpectedEof { pos });
    }
    let code = read_u16_le(s, pos + 12);
    let audio_format = match WaveFormat::from_code(code) {
        Some(f) => f,
        None => {
            return Err(WaverlyError::UnknownAudioFormat { pos: pos + 12, code });
        },
    };
    let bits = read_u16_le(s, pos + 26);
    let bits_per_sample = match BitDepth::from_bits(bits) {
        Some(d) => d,
        None => {
            return Err(WaverlyError::UnknownBitDepth { pos: pos + 26, bits });
        },
    };
    let is_ext = audio_format == WaveFormat::Extensible;
    if is_ext && s.len() - pos < 52 {
        return Err(WaverlyError::UnexpectedEof { pos });
    }
    let extensible = if is_ext {
        Some(read_extensible(s, pos + 28))
    } else {
        None
    };
    let f = FormatChunk {
        size: read_u32_le(s, pos + 8),
        audio_format,
        num_channels: read_u16_le(s, pos + 14),
        sample_rate: read_u32_le(s, pos + 16),
        byte_rate: read_u32_le(s, pos + 20),
        block_align: read_u16_le(s, pos + 24),
        bits_per_sample,
        extensible,
    };
    let next = if is_ext {
        pos + 52
    } else {
        pos + 28
    };
    Ok((Chunk::Format(f), next))
}

fn read_fact(s: &[u8], pos: usize) -> (r: Result<(Chunk, usize), WaverlyError>)
    requires
        pos <= s@.len(),
    ensures
        decoded_as(r, fact_at(s@, pos as int)),
{
    if s.len() - pos < 12 {
        return Err(WaverlyError::UnexpectedEof { pos });
    }
    let size = read_u32_le(s, pos + 4);
    let data = read_u32_le(s, pos + 8);
    Ok((Chunk::Fact(FactChunk { size, data }), pos + 12))
}

fn read_peak(s: &[u8], pos: usize) -> (r: Result<(Chunk, usize), WaverlyError>)
    requires
        pos <= s@.len(),
    ensures
        decoded_as(r, peak_at(s@, pos as int)),
{
    if s.len() - pos < 32 {
        return Err(WaverlyError::UnexpectedEof { pos });
    }
    let mut peaks: Vec<Peak> = Vec::new();
    peaks.push(Peak { value_bits: read_u32_le(s, pos + 16), position: read_u32_le(s, pos + 20) });
    peaks.push(Peak { value_bits: read_u32_le(s, pos + 24), position: read_u32_le(s, pos + 28) });
    let p = PeakChunk {
        size: read_u32_le(s, pos + 4),
        version: read_u32_le(s, pos + 8),
        timestamp: read_u32_le(s, pos + 12),
        peaks,
    };
    assert(p.peaks@ =~= seq![peak_record_at(s@, pos + 16), peak_record_at(s@, pos + 24)]);
    Ok((Chunk::Peak(p), pos + 32))
}

fn read_data(s: &[u8], pos: usize) -> (r: Result<(Chunk, usize), WaverlyError>)
    requires
        pos <= s@.len(),
    ensures
        decoded_as(r, data_at(s@, pos as int)),
{
    if s.len() - pos < 8 {
        return Err(WaverlyError::UnexpectedEof { pos });
    }
    let size = read_u32_le(s, pos + 4);
    if s.len() - pos - 8 < size as usize {
        return Err(WaverlyError::UnexpectedEof { pos });
    }
    let end = pos + 8 + size as usize;
    let data = slice_to_vec(slice_subrange(s, pos + 8, end));
    Ok((Chunk::Data(DataChunk { size, data }), end))
}

/// Decodes what stands at `pos < s.len()`: a chunk and the position after it,
/// or a zero filler byte (`None` and `pos + 1`). The magic tags are tried in the
/// order RIFF, format, FACT, PEAK, data; bytes that match none of them and are
/// not a zero byte are an unknown chunk.
pub fn read_step(s: &[u8], pos: usize) -> (r: Result<(Option<Chunk>, usize), WaverlyError>)
    requires
        pos < s@.len(),
    ensures
        match r {
            Ok((oc, n)) => step_at(s@, pos as int) == Ok::<(Option<ChunkView>, int), WaverlyError>(
                (
                    match oc {
                        Some(c) => Some(c@),
                        None => None,
                    },
                    n as int,
                ),
            ),
            Err(e) => step_at(s@, pos as int) == Err::<(Option<ChunkView>, int), WaverlyError>(e),
        },
{
    let found = if magic4(s, pos, 82, 73, 70, 70) {
        read_riff(s, pos)
    } else if format_magic_at(s, pos) {
        read_format(s, pos)
    } else if magic4(s, pos, 102, 97, 99, 116) {
        read_fact(s, pos)
    } else if magic4(s, pos, 80, 69, 65, 75) {
        read_peak(s, pos)
    } else if magic4(s, pos, 100, 97, 116, 97) {
        read_data(s, pos)
    } else if s[pos] == 0 {
        return Ok((None, pos + 1));
    } else {
        return Err(WaverlyError::UnknownChunk { pos });
    };
    match found {
        Ok((c, n)) => Ok((Some(c), n)),
        Err(e) => Err(e),
    }
}

} // verus!
