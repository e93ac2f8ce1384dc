//! Encoding single chunks onto the end of a byte vector.

use vstd::prelude::*;

use crate::chunk::{
    data_bytes, extensible_bytes, fact_bytes, format_bytes, peak_bytes, peak_record_bytes,
    peaks_bytes, riff_bytes, DataChunk, ExtensibleFormat, FactChunk, FormatChunk, PeakChunk,
    RiffChunk,
};
use crate::le::{push_u16_le, push_u32_le};

verus! {

fn push_all(out: &mut Vec<u8>, bytes: &[u8])
    ensures
        final(out)@ == old(out)@ + bytes@,
{
    let ghost start = out@;
    let mut i: usize = 0;
    while i < bytes.len()
        invariant
            i <= bytes@.len(),
            out@ == start + bytes@.take(i as int),
        decreases bytes@.len() - i,
    {
        out.push(bytes[i]);
        i = i + 1;
        assert(out@ =~= start + bytes@.take(i as int));
    }
    assert(bytes@.take(i as int) =~= bytes@);
}

impl RiffChunk {
    /// Appends the encoding of this header.
    pub fn write(&self, out: &mut Vec<u8>)
        ensures
            final(out)@ == old(out)@ + riff_bytes(*self),
    {
        let ghost start = out@;
        push_all(out, &[82u8, 73, 70, 70]);
        push_u32_le(out, self.size);
        assert(out@ =~= start + riff_bytes(*self));
    }
}

impl ExtensibleFormat {
    fn write(&self, out: &mut Vec<u8>)
        ensures
            final(out)@ == old(out)@ + extensible_bytes(self@),
    {
        let ghost start = out@;
        push_u16_le(out, self.size);
        push_u16_le(out, self.valid_bits_per_sample);
        push_u32_le(out, self.channel_mask);
        push_all(out, &self.sub_format_guid);
        assert(out@ =~= start + extensible_bytes(self@));
    }
}

impl FormatChunk {
    /// Appends the encoding of this chunk; the extensible part is written
    /// exactly when it is present.
    pub fn write(&self, out: &mut Vec<u8>)
        ensures
            final(out)@ == old(out)@ + format_bytes(self@),
    {
        let ghost start = out@;
        push_all(out, &[87u8, 65, 86, 69, 102, 109, 116, 32]);
        push_u32_le(out, self.size);
        push_u16_le(out, self.audio_format.code());
        push_u16_le(out, self.num_channels);
        push_u32_le(out, self.sample_rate);
        push_u32_le(out, self.byte_rate);
        push_u16_le(out, self.block_align);
        push_u16_le(out, self.bits_per_sample.bits());
        match &self.extensible {
            Some(e) => e.write(out),
            None => {},
        }
        assert(out@ =~= start + format_bytes(self@));
    }
}

impl FactChunk {
    /// Appends the encoding of this chunk.
    pub fn write(&self, out: &mut Vec<u8>)
        ensures
            final(out)@ == old(out)@ + fact_bytes(*self),
    {
        let ghost start = out@;
        push_all(out, &[102u8, 97, 99, 116]);
        push_u32_le(out, self.size);
        push_u32_le(out, self.data);
        assert(out@ =~= start + fact_bytes(*self));
    }
}

impl DataChunk {
    /// Appends the encoding of this chunk: its size field, then the payload
    /// bytes as they are.
    pub fn write(&self, out: &mut Vec<u8>)
        ensures
            final(out)@ == old(out)@ + data_bytes(self@),
    {
        let ghost start = out@;
        push_all(out, &[100u8, 97, 116, 97]);
        push_u32_le(out, self.size);
        push_all(out, self.data.as_slice());
        assert(out@ =~= start + data_bytes(self@));
    }
}

impl PeakChunk {
    /// Appends the encoding of this chunk, with each of its peak records.
    pub fn write(&self, out: &mut Vec<u8>)
        ensures
            final(out)@ == old(out)@ + peak_bytes(self@),
    {
        let ghost start = out@;
        push_all(out, &[80u8, 69, 65, 75]);
        push_u32_le(out, self.size);
        push_u32_le(out, self.version);
        push_u32_le(out, self.timestamp);
        let ghost head = out@;
        let mut i: usize = 0;
        while i < self.peaks.len()
            invariant
                i <= self.peaks@.len(),
                out@ == head + peaks_bytes(self.peaks@.take(i as int)),
            decreases self.peaks@.len() - i,
        {
            let p = self.peaks[i];
            push_u32_le(out, p.value_bits);
            push_u32_le(out, p.position);
            proof {
                let t = self.peaks@.take(i + 1);
                assert(t.drop_last() =~= self.peaks@.take(i as int));
                assert(peaks_bytes(t) == peaks_bytes(self.peaks@.take(i as int)) + peak_record_bytes(p));
            }
            i = i + 1;
            assert(out@ =~= head + peaks_bytes(self.peaks@.take(i as int)));
        }
        assert(self.peaks@.take(i as int) =~= self.peaks@);
        assert(out@ =~= start + peak_bytes(self@));
    }
}

} // verus!
