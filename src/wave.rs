//! The assembled container: decoding a whole byte sequence into a `Wave`,
//! and encoding it back in canonical chunk order.

use vstd::prelude::*;

use crate::chunk::{
    chunks_from, data_bytes, fact_bytes, format_bytes, peak_bytes, riff_bytes, ChunkView,
    DataChunk, DataView, FactChunk, FormatChunk, FormatView, PeakChunk, PeakView, RiffChunk,
    WaveFormat, WaverlyError,
};
use crate::read::{read_step, Chunk};

verus! {

/// A WAV container: one RIFF header, one format chunk, one data chunk, and
/// optional FACT and PEAK chunks.
#[derive(Debug, Clone, PartialEq, Eq)]
pub struct Wave {
    pub riff: RiffChunk,
    pub format: FormatChunk,
    pub data: DataChunk,
    pub fact: Option<FactChunk>,
    pub peak: Option<PeakChunk>,
}

pub ghost struct WaveView {
    pub riff: RiffChunk,
    pub format: FormatView,
    pub data: DataView,
    pub fact: Option<FactChunk>,
    pub peak: Option<PeakView>,
}

pub open spec fn opt_format_view(o: Option<FormatChunk>) -> Option<FormatView> {
    match o {
        Some(f) => Some(f@),
        None => None,
    }
}

pub open spec fn opt_data_view(o: Option<DataChunk>) -> Option<DataView> {
    match o {
        Some(d) => Some(d@),
        None => None,
    }
}

pub open spec fn opt_peak_view(o: Option<PeakChunk>) -> Option<PeakView> {
    match o {
        Some(p) => Some(p@),
        None => None,
    }
}

impl View for Wave {
    type V = WaveView;

    open spec fn view(&self) -> WaveView {
        WaveView {
            riff: self.riff,
            format: self.format@,
            data: self.data@,
            fact: self.fact,
            peak: opt_peak_view(self.peak),
        }
    }
}

/// The latest chunk of each kind among a sequence of chunks.
pub ghost struct Slots {
    pub riff: Option<RiffChunk>,
    pub format: Option<FormatView>,
    pub data: Option<DataView>,
    pub fact: Option<FactChunk>,
    pub peak: Option<PeakView>,
}

impl Slots {
    /// Puts `c` in the slot of its kind, replacing what was there.
    pub open spec fn put(self, c: ChunkView) -> Slots {
        match c {
            ChunkView::Riff(r) => Slots { riff: Some(r), ..self },
            ChunkView::Format(f) => Slots { format: Some(f), ..self },
            ChunkView::Data(d) => Slots { data: Some(d), ..self },
            ChunkView::Fact(f) => Slots { fact: Some(f), ..self },
            ChunkView::Peak(p) => Slots { peak: Some(p), ..self },
        }
    }
}

pub open spec fn empty_slots() -> Slots {
    Slots { riff: None, format: None, data: None, fact: None, peak: None }
}

/// Folds chunks into one slot per kind; a later chunk of a kind replaces an
/// earlier one.
pub open spec fn slots_of(cs: Seq<ChunkView>) -> Slots
    decreases cs.len(),
{
    if cs.len() == 0 {
        empty_slots()
    } else {
        slots_of(cs.drop_last()).put(cs.last())
    }
}

/// Checks the required chunks, in the order RIFF, format, data, then (when
/// `require_fact` holds) a FACT chunk for any format other than PCM.
pub open spec fn assemble(sl: Slots, require_fact: bool) -> Result<WaveView, WaverlyError> {
    if sl.riff is None {
        Err(WaverlyError::MissingRiff)
    } else if sl.format is None {
        Err(WaverlyError::MissingFormat)
    } else if sl.data is None {
        Err(WaverlyError::MissingData)
    } else if require_fact && sl.format.unwrap().audio_format != WaveFormat::Pcm
        && sl.fact is None {
        Err(WaverlyError::MissingFact)
    } else {
        Ok(
            WaveView {
                riff: sl.riff.unwrap(),
                format: sl.format.unwrap(),
                data: sl.data.unwrap(),
                fact: sl.fact,
                peak: sl.peak,
            },
        )
    }
}

/// What decoding the whole of `s` gives.
pub open spec fn decode_wave(s: Seq<u8>, require_fact: bool) -> Result<WaveView, WaverlyError> {
    match chunks_from(s, 0) {
        Err(e) => Err(e),
        Ok(cs) => assemble(slots_of(cs), require_fact),
    }
}

/// The encoding of a wave: RIFF, format, data, then FACT and PEAK when present.
pub open spec fn wave_bytes(w: WaveView) -> Seq<u8> {
    riff_bytes(w.riff) + format_bytes(w.format) + data_bytes(w.data) + match w.fact {
        Some(f) => fact_bytes(f),
        None => Seq::<u8>::empty(),
    } + match w.peak {
        Some(p) => peak_bytes(p),
        None => Seq::<u8>::empty(),
    }
}

/// `acc` followed by the chunks of `r`, or the error of `r`.
pub open spec fn prepend(
    acc: Seq<ChunkView>,
    r: Result<Seq<ChunkView>, WaverlyError>,
) -> Result<Seq<ChunkView>, WaverlyError> {
    match r {
        Ok(rest) => Ok(acc + rest),
        Err(e) => Err(e),
    }
}

/// `r` is the decoding result `s`: the same wave, or the same error.
pub open spec fn decoded_wave(r: Result<Wave, WaverlyError>, s: Result<WaveView, WaverlyError>) -> bool {
    match r {
        Ok(w) => s == Ok::<WaveView, WaverlyError>(w@),
        Err(e) => s == Err::<WaveView, WaverlyError>(e),
    }
}

impl Wave {
    /// Decodes a whole container, requiring a FACT chunk for any format other
    /// than PCM.
    pub fn from_reader(bytes: &[u8]) -> (r: Result<Wave, WaverlyError>)
        ensures
            decoded_wave(r, decode_wave(bytes@, true)),
    {
        Wave::from_reader_with(bytes, true)
    }

    /// Decodes a whole container; `require_fact` chooses whether a format
    /// other than PCM without a FACT chunk is an error.
    pub fn from_reader_with(bytes: &[u8], require_fact: bool) -> (r: Result<Wave, WaverlyError>)
        ensures
            decoded_wave(r, decode_wave(bytes@, require_fact)),
    {
        let ghost s = bytes@;
        let mut riff: Option<RiffChunk> = None;
        let mut format: Option<FormatChunk> = None;
        let mut data: Option<DataChunk> = None;
        let mut fact: Option<FactChunk> = None;
        let mut peak: Option<PeakChunk> = None;
        let ghost mut acc: Seq<ChunkView> = Seq::empty();
        let mut pos: usize = 0;
        while pos < bytes.len()
            invariant
                s == bytes@,
                pos <= s.len(),
                chunks_from(s, 0) == prepend(acc, chunks_from(s, pos as int)),
                slots_of(acc) == (Slots {
                    riff,
                    format: opt_format_view(format),
                    data: opt_data_view(data),
                    fact,
                    peak: opt_peak_view(peak),
                }),
            decreases s.len() - pos,
        {
            let step = read_step(bytes, pos);
            match step {
                Err(e) => {
                    return Err(e);
                },
                Ok((oc, next)) => {
                    assert(next > pos);
                    match oc {
                        Some(c) => {
                            let ghost acc2 = acc.push(c@);
                            proof {
                                assert(acc2.drop_last() =~= acc);
                                match chunks_from(s, next as int) {
                                    Ok(rest) => {
                                        assert(acc + (seq![c@] + rest) =~= acc2 + rest);
                                    },
                                    Err(_) => {},
                                }
                            }
                            match c {
                                Chunk::Riff(x) => riff = Some(x),
                                Chunk::Format(x) => format = Some(x),
                                Chunk::Fact(x) => fact = Some(x),
                                Chunk::Peak(x) => peak = Some(x),
                                Chunk::Data(x) => data = Some(x),
                            }
                            proof {
                                acc = acc2;
                            }
                        },
                        None => {},
                    }
                    pos = next;
                },
            }
        }
        assert(acc + Seq::<ChunkView>::empty() =~= acc);
        let riff = match riff {
            Some(x) => x,
            None => {
                return Err(WaverlyError::MissingRiff);
            },
        };
        let format = match format {
            Some(x) => x,
            None => {
                return Err(WaverlyError::MissingFormat);
            },
        };
        let data = match data {
            Some(x) => x,
            None => {
                return Err(WaverlyError::MissingData);
            },
        };
        if require_fact && format.audio_format != WaveFormat::Pcm && fact.is_none() {
            return Err(WaverlyError::MissingFact);
        }
        Ok(Wave { riff, format, data, fact, peak })
    }

    /// Appends the encoding of this wave in canonical order: RIFF, format,
    /// data, then FACT and PEAK when present.
    pub fn write(self, out: &mut Vec<u8>)
        ensures
            final(out)@ == old(out)@ + wave_bytes(self@),
    {
        let ghost start = out@;
        self.riff.write(out);
        self.format.write(out);
        self.data.write(out);
        match &self.fact {
            Some(f) => f.write(out),
            None => {},
        }
        match &self.peak {
            Some(p) => p.write(out),
            None => {},
        }
        assert(out@ =~= start + wave_bytes(self@));
    }
}

} // verus!
