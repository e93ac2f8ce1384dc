//! The chunk kinds of a WAV container, their byte layout, and what decoding
//! each of them means.

use vstd::prelude::*;

use crate::le::{le16_at, le32_at, u16_bytes, u32_bytes};

verus! {

/// How the samples of the data chunk are coded.
#[derive(Debug, Clone, Copy, PartialEq, Eq, Structural)]
pub enum WaveFormat {
    Pcm,
    IeeeFloat,
    /// 8-bit ITU-T G.711 A-law
    Alaw,
    /// 8-bit ITU-T G.711 mu-law
    Mulaw,
    Extensible,
}

/// The standard sample bit depths.
#[derive(Debug, Clone, Copy, PartialEq, Eq, Structural)]
pub enum BitDepth {
    Eight,
    Sixteen,
    TwentyFour,
    ThirtyTwo,
    SixtyFour,
}

/// The on-disk code of an audio format.
pub open spec fn format_code(f: WaveFormat) -> u16 {
    match f {
        WaveFormat::Pcm => 0x01,
        WaveFormat::IeeeFloat => 0x03,
        WaveFormat::Alaw => 0x06,
        WaveFormat::Mulaw => 0x07,
        WaveFormat::Extensible => 0x08,
    }
}

/// The audio format with on-disk code `c`, if any.
pub open spec fn format_of_code(c: u16) -> Option<WaveFormat> {
    if c == 0x01 {
        Some(WaveFormat::Pcm)
    } else if c == 0x03 {
        Some(WaveFormat::IeeeFloat)
    } else if c == 0x06 {
        Some(WaveFormat::Alaw)
    } else if c == 0x07 {
        Some(WaveFormat::Mulaw)
    } else if c == 0x08 {
        Some(WaveFormat::Extensible)
    } else {
        None
    }
}

/// The number of bits of a bit depth, which is also its on-disk code.
pub open spec fn depth_bits(d: BitDepth) -> u16 {
    match d {
        BitDepth::Eight => 8,
        BitDepth::Sixteen => 16,
        BitDepth::TwentyFour => 24,
        BitDepth::ThirtyTwo => 32,
        BitDepth::SixtyFour => 64,
    }
}

/// The bit depth with on-disk code `c`, if any.
pub open spec fn depth_of_bits(c: u16) -> Option<BitDepth> {
    if c == 8 {
        Some(BitDepth::Eight)
    } else if c == 16 {
        Some(BitDepth::Sixteen)
    } else if c == 24 {
        Some(BitDepth::TwentyFour)
    } else if c == 32 {
        Some(BitDepth::ThirtyTwo)
    } else if c == 64 {
        Some(BitDepth::SixtyFour)
    } else {
        None
    }
}

impl WaveFormat {
    /// The on-disk code of this format.
    pub fn code(self) -> (r: u16)
        ensures
            r == format_code(self),
    {
        match self {
            WaveFormat::Pcm => 0x01,
            WaveFormat::IeeeFloat => 0x03,
            WaveFormat::Alaw => 0x06,
            WaveFormat::Mulaw => 0x07,
            WaveFormat::Extensible => 0x08,
        }
    }

    /// The format with on-disk code `c`, if any.
    pub fn from_code(c: u16) -> (r: Option<WaveFormat>)
        ensures
            r == format_of_code(c),
    {
        if c == 0x01 {
            Some(WaveFormat::Pcm)
        } else if c == 0x03 {
            Some(WaveFormat::IeeeFloat)
        } else if c == 0x06 {
            Some(WaveFormat::Alaw)
        } else if c == 0x07 {
            Some(WaveFormat::Mulaw)
        } else if c == 0x08 {
            Some(WaveFormat::Extensible)
        } else {
            None
        }
    }
}

impl BitDepth {
    /// The number of bits per sample.
    pub fn bits(self) -> (r: u16)
        ensures
            r == depth_bits(self),
    {
        match self {
            BitDepth::Eight => 8,
            BitDepth::Sixteen => 16,
            BitDepth::TwentyFour => 24,
            BitDepth::ThirtyTwo => 32,
            BitDepth::SixtyFour => 64,
        }
    }

    /// The bit depth of `c` bits, if it is a standard one.
    pub fn from_bits(c: u16) -> (r: Option<BitDepth>)
        ensures
            r == depth_of_bits(c),
    {
        if c == 8 {
            Some(BitDepth::Eight)
        } else if c == 16 {
            Some(BitDepth::Sixteen)
        } else if c == 24 {
            Some(BitDepth::TwentyFour)
        } else if c == 32 {
            Some(BitDepth::ThirtyTwo)
        } else if c == 64 {
            Some(BitDepth::SixtyFour)
        } else {
            None
        }
    }
}

/// Why a byte sequence is not a WAV container.
#[derive(Debug, Clone, Copy, PartialEq, Eq, Structural)]
pub enum WaverlyError {
    /// The bytes end inside the chunk that starts at `pos`.
    UnexpectedEof { pos: usize },
    /// No chunk kind starts at `pos`.
    UnknownChunk { pos: usize },
    /// The audio format field at `pos` holds an unknown code.
    UnknownAudioFormat { pos: usize, code: u16 },
    /// The bits-per-sample field at `pos` holds a non-standard depth.
    UnknownBitDepth { pos: usize, bits: u16 },
    /// No RIFF header was found.
    MissingRiff,
    /// No format chunk was found.
    MissingFormat,
    /// No data chunk was found.
    MissingData,
    /// The format is not PCM and no FACT chunk was found.
    MissingFact,
}

/// The RIFF header: the declared size of everything after it.
#[derive(Debug, Clone, Copy, PartialEq, Eq, Structural)]
pub struct RiffChunk {
    pub size: u32,
}

/// The extensible part of a format chunk.
#[derive(Debug, Clone, Copy, PartialEq, Eq)]
pub struct ExtensibleFormat {
    pub size: u16,
    pub valid_bits_per_sample: u16,
    pub channel_mask: u32,
    pub sub_format_guid: [u8; 16],
}

/// The format chunk.
#[derive(Debug, Clone, Copy, PartialEq, Eq)]
pub struct FormatChunk {
    pub size: u32,
    pub audio_format: WaveFormat,
    pub num_channels: u16,
    pub sample_rate: u32,
    /// Average number of bytes per second at which the data should be transferred
    pub byte_rate: u32,
    /// The block alignment (in bytes) of the waveform data.
    pub block_align: u16,
    pub bits_per_sample: BitDepth,
    /// Present exactly when `audio_format` is `Extensible`.
    pub extensible: Option<ExtensibleFormat>,
}

/// The FACT chunk. Its body is always one 32-bit value, whatever `size`
/// declares; bytes beyond it are read as whatever follows.
#[derive(Debug, Clone, Copy, PartialEq, Eq, Structural)]
pub struct FactChunk {
    pub size: u32,
    pub data: u32,
}

/// The data chunk: `size` bytes of samples, kept as they are.
#[derive(Debug, Clone, PartialEq, Eq)]
pub struct DataChunk {
    pub size: u32,
    pub data: Vec<u8>,
}

/// One amplitude peak.
#[derive(Debug, Clone, Copy, PartialEq, Eq, Structural)]
pub struct Peak {
    /// The IEEE-754 single-precision bit pattern of the amplitude.
    pub value_bits: u32,
    /// The sample frame at which the peak occurs (not a byte offset).
    pub position: u32,
}

/// The PEAK chunk: always two peaks, whatever the channel count.
#[derive(Debug, Clone, PartialEq, Eq)]
pub struct PeakChunk {
    pub size: u32,
    pub version: u32,
    /// Unix epoch, to compare with the file's modification time.
    pub timestamp: u32,
    pub peaks: Vec<Peak>,
}

pub ghost struct ExtensibleView {
    pub size: u16,
    pub valid_bits_per_sample: u16,
    pub channel_mask: u32,
    pub sub_format_guid: Seq<u8>,
}

pub ghost struct FormatView {
    pub size: u32,
    pub audio_format: WaveFormat,
    pub num_channels: u16,
    pub sample_rate: u32,
    pub byte_rate: u32,
    pub block_align: u16,
    pub bits_per_sample: BitDepth,
    pub extensible: Option<ExtensibleView>,
}

pub ghost struct DataView {
    pub size: u32,
    pub data: Seq<u8>,
}

pub ghost struct PeakView {
    pub size: u32,
    pub version: u32,
    pub timestamp: u32,
    pub peaks: Seq<Peak>,
}

/// One decoded chunk.
pub ghost enum ChunkView {
    Riff(RiffChunk),
    Format(FormatView),
    Fact(FactChunk),
    Peak(PeakView),
    Data(DataView),
}

impl View for ExtensibleFormat {
    type V = ExtensibleView;

    open spec fn view(&self) -> ExtensibleView {
        ExtensibleView {
            size: self.size,
            valid_bits_per_sample: self.valid_bits_per_sample,
            channel_mask: self.channel_mask,
            sub_format_guid: self.sub_format_guid@,
        }
    }
}

impl View for FormatChunk {
    type V = FormatView;

    open spec fn view(&self) -> FormatView {
        FormatView {
            size: self.size,
            audio_format: self.audio_format,
            num_channels: self.num_channels,
            sample_rate: self.sample_rate,
            byte_rate: self.byte_rate,
            block_align: self.block_align,
            bits_per_sample: self.bits_per_sample,
            extensible: match self.extensible {
                Some(e) => Some(e@),
                None => None,
            },
        }
    }
}

impl View for DataChunk {
    type V = DataView;

    open spec fn view(&self) -> DataView {
        DataView { size: self.size, data: self.data@ }
    }
}

impl View for PeakChunk {
    type V = PeakView;

    open spec fn view(&self) -> PeakView {
        PeakView {
            size: self.size,
            version: self.version,
            timestamp: self.timestamp,
            peaks: self.peaks@,
        }
    }
}

// Magic tags.
pub open spec fn riff_magic() -> Seq<u8> {
    seq![82u8, 73u8, 70u8, 70u8]
}

pub open spec fn format_magic() -> Seq<u8> {
    seq![87u8, 65u8, 86u8, 69u8, 102u8, 109u8, 116u8, 32u8]
}

pub open spec fn fact_magic() -> Seq<u8> {
    seq![102u8, 97u8, 99u8, 116u8]
}

pub open spec fn peak_magic() -> Seq<u8> {
    seq![80u8, 69u8, 65u8, 75u8]
}

pub open spec fn data_magic() -> Seq<u8> {
    seq![100u8, 97u8, 116u8, 97u8]
}

// Encodings.
pub open spec fn riff_bytes(r: RiffChunk) -> Seq<u8> {
    riff_magic() + u32_bytes(r.size)
}

pub open spec fn extensible_bytes(e: ExtensibleView) -> Seq<u8> {
    u16_bytes(e.size) + u16_bytes(e.valid_bits_per_sample) + u32_bytes(e.channel_mask)
        + e.sub_format_guid
}

pub open spec fn format_bytes(f: FormatView) -> Seq<u8> {
    format_magic() + u32_bytes(f.size) + u16_bytes(format_code(f.audio_format)) + u16_bytes(
        f.num_channels,
    ) + u32_bytes(f.sample_rate) + u32_bytes(f.byte_rate) + u16_bytes(f.block_align) + u16_bytes(
        depth_bits(f.bits_per_sample),
    ) + match f.extensible {
        Some(e) => extensible_bytes(e),
        None => Seq::<u8>::empty(),
    }
}

pub open spec fn fact_bytes(f: FactChunk) -> Seq<u8> {
    fact_magic() + u32_bytes(f.size) + u32_bytes(f.data)
}

pub open spec fn data_bytes(d: DataView) -> Seq<u8> {
    data_magic() + u32_bytes(d.size) + d.data
}

pub open spec fn peak_record_bytes(p: Peak) -> Seq<u8> {
    u32_bytes(p.value_bits) + u32_bytes(p.position)
}

/// The peak records one after another.
pub open spec fn peaks_bytes(ps: Seq<Peak>) -> Seq<u8>
    decreases ps.len(),
{
    if ps.len() == 0 {
        Seq::empty()
    } else {
        peaks_bytes(ps.drop_last()) + peak_record_bytes(ps.last())
    }
}

pub open spec fn peak_bytes(p: PeakView) -> Seq<u8> {
    peak_magic() + u32_bytes(p.size) + u32_bytes(p.version) + u32_bytes(p.timestamp) + peaks_bytes(
        p.peaks,
    )
}

#[verifier::opaque]
pub open spec fn chunk_bytes(c: ChunkView) -> Seq<u8> {
    match c {
        ChunkView::Riff(r) => riff_bytes(r),
        ChunkView::Format(f) => format_bytes(f),
        ChunkView::Fact(f) => fact_bytes(f),
        ChunkView::Peak(p) => peak_bytes(p),
        ChunkView::Data(d) => data_bytes(d),
    }
}

// Decoding.
/// `m` stands in `s` at `pos`.
pub open spec fn has_magic(s: Seq<u8>, pos: int, m: Seq<u8>) -> bool {
    0 <= pos && pos + m.len() <= s.len() && s.subrange(pos, pos + m.len()) == m
}

pub open spec fn riff_at(s: Seq<u8>, pos: int) -> Result<(ChunkView, int), WaverlyError> {
    if pos + 8 > s.len() {
        Err(WaverlyError::UnexpectedEof { pos: pos as usize })
    } else {
        Ok((ChunkView::Riff(RiffChunk { size: le32_at(s, pos + 4) }), pos + 8))
    }
}

pub open spec fn extensible_at(s: Seq<u8>, pos: int) -> ExtensibleView {
    ExtensibleView {
        size: le16_at(s, pos),
        valid_bits_per_sample: le16_at(s, pos + 2),
        channel_mask: le32_at(s, pos + 4),
        sub_format_guid: s.subrange(pos + 8, pos + 24),
    }
}

/// The format chunk at `pos`; its extensible part follows exactly when the
/// format is `Extensible`.
pub open spec fn format_at(s: Seq<u8>, pos: int) -> Result<(ChunkView, int), WaverlyError> {
    if pos + 28 > s.len() {
        Err(WaverlyError::UnexpectedEof { pos: pos as usize })
    } else {
        match format_of_code(le16_at(s, pos + 12)) {
            None => Err(
                WaverlyError::UnknownAudioFormat {
                    pos: (pos + 12) as usize,
                    code: le16_at(s, pos + 12),
                },
            ),
            Some(af) => match depth_of_bits(le16_at(s, pos + 26)) {
                None => Err(
                    WaverlyError::UnknownBitDepth {
                        pos: (pos + 26) as usize,
                        bits: le16_at(s, pos + 26),
                    },
                ),
                Some(bd) => {
                    let ext_len: int = if af == WaveFormat::Extensible {
                        24
                    } else {
                        0
                    };
                    if pos + 28 + ext_len > s.len() {
                        Err(WaverlyError::UnexpectedEof { pos: pos as usize })
                    } else {
                        let f = FormatView {
                            size: le32_at(s, pos + 8),
                            audio_format: af,
                            num_channels: le16_at(s, pos + 14),
                            sample_rate: le32_at(s, pos + 16),
                            byte_rate: le32_at(s, pos + 20),
                            block_align: le16_at(s, pos + 24),
                            bits_per_sample: bd,
                            extensible: if af == WaveFormat::Extensible {
                                Some(extensible_at(s, pos + 28))
                            } else {
                                None
                            },
                        };
                        Ok((ChunkView::Format(f), pos + 28 + ext_len))
                    }
                },
            },
        }
    }
}

/// The FACT chunk at `pos`: a fixed four-byte body after the size field.
pub open spec fn fact_at(s: Seq<u8>, pos: int) -> Result<(ChunkView, int), WaverlyError> {
    if pos + 12 > s.len() {
        Err(WaverlyError::UnexpectedEof { pos: pos as usize })
    } else {
        Ok(
            (
                ChunkView::Fact(FactChunk { size: le32_at(s, pos + 4), data: le32_at(s, pos + 8) }),
                pos + 12,
            ),
        )
    }
}

pub open spec fn peak_record_at(s: Seq<u8>, pos: int) -> Peak {
    Peak { value_bits: le32_at(s, pos), position: le32_at(s, pos + 4) }
}

pub open spec fn peak_at(s: Seq<u8>, pos: int) -> Result<(ChunkView, int), WaverlyError> {
    if pos + 32 > s.len() {
        Err(WaverlyError::UnexpectedEof { pos: pos as usize })
    } else {
        let p = PeakView {
            size: le32_at(s, pos + 4),
            version: le32_at(s, pos + 8),
            timestamp: le32_at(s, pos + 12),
            peaks: seq![peak_record_at(s, pos + 16), peak_record_at(s, pos + 24)],
        };
        Ok((ChunkView::Peak(p), pos + 32))
    }
}

/// The data chunk at `pos`: its size field gives the exact number of payload bytes.
pub open spec fn data_at(s: Seq<u8>, pos: int) -> Result<(ChunkView, int), WaverlyError> {
    if pos + 8 > s.len() || pos + 8 + le32_at(s, pos + 4) > s.len() {
        Err(WaverlyError::UnexpectedEof { pos: pos as usize })
    } else {
        let n = le32_at(s, pos + 4);
        Ok(
            (
                ChunkView::Data(DataView { size: n, data: s.subrange(pos + 8, pos + 8 + n) }),
                pos + 8 + n,
            ),
        )
    }
}

/// One step of the dispatcher at `pos < s.len()`: a chunk and the position after
/// it, or a filler byte (no chunk), or a failure. The magic tags are tried in
/// the order RIFF, format, FACT, PEAK, data, then a zero filler byte.
pub open spec fn step_at(s: Seq<u8>, pos: int) -> Result<(Option<ChunkView>, int), WaverlyError> {
    let found = if has_magic(s, pos, riff_magic()) {
        Some(riff_at(s, pos))
    } else if has_magic(s, pos, format_magic()) {
        Some(format_at(s, pos))
    } else if has_magic(s, pos, fact_magic()) {
        Some(fact_at(s, pos))
    } else if has_magic(s, pos, peak_magic()) {
        Some(peak_at(s, pos))
    } else if has_magic(s, pos, data_magic()) {
        Some(data_at(s, pos))
    } else {
        None
    };
    match found {
        Some(Ok((c, next))) => Ok((Some(c), next)),
        Some(Err(e)) => Err(e),
        None => if s[pos] == 0 {
            Ok((None, pos + 1))
        } else {
            Err(WaverlyError::UnknownChunk { pos: pos as usize })
        },
    }
}

/// The chunks from `pos` to the end of `s`, in their on-disk order.
pub open spec fn chunks_from(s: Seq<u8>, pos: int) -> Result<Seq<ChunkView>, WaverlyError>
    decreases s.len() - pos,
    via chunks_from_decreases
{
    if pos < 0 || pos >= s.len() {
        Ok(Seq::empty())
    } else {
        match step_at(s, pos) {
            Err(e) => Err(e),
            Ok((oc, next)) => match chunks_from(s, next) {
                Err(e) => Err(e),
                Ok(rest) => match oc {
                    Some(c) => Ok(seq![c] + rest),
                    None => Ok(rest),
                },
            },
        }
    }
}

/// Every step of the dispatcher moves forward.
#[via_fn]
proof fn chunks_from_decreases(s: Seq<u8>, pos: int) {
    if 0 <= pos < s.len() {
        match step_at(s, pos) {
            Ok((_, next)) => assert(pos < next),
            Err(_) => {},
        }
    }
}

} // verus!
