//! What holds between decoding and encoding.

use vstd::prelude::*;

use crate::chunk::{
    chunk_bytes, chunks_from, data_at, data_bytes, data_magic, depth_bits, extensible_at,
    extensible_bytes, fact_at, fact_bytes, fact_magic, format_at, format_bytes, format_code,
    format_magic, has_magic, peak_at, peak_bytes, peak_magic, peak_record_at, peaks_bytes, riff_at,
    riff_bytes, riff_magic, step_at, ChunkView, DataView, ExtensibleView, FormatView, Peak,
    RiffChunk, WaveFormat, WaverlyError,
};
use crate::le::{le16_at, le32_at, lemma_le16_of_bytes, lemma_le32_of_bytes, u16_bytes, u32_bytes};
use crate::wave::{assemble, decode_wave, empty_slots, slots_of, wave_bytes, Slots, WaveView};

verus! {

/// A chunk that its own encoding decodes back to: a data chunk's size is its
/// payload's length, a format chunk has its extensible part (of a 16-byte
/// GUID) exactly when its format is `Extensible`, and a PEAK chunk has two
/// peaks.
pub open spec fn chunk_valid(c: ChunkView) -> bool {
    match c {
        ChunkView::Riff(_) => true,
        ChunkView::Fact(_) => true,
        ChunkView::Format(f) => format_valid(f),
        ChunkView::Data(d) => data_valid(d),
        ChunkView::Peak(p) => p.peaks.len() == 2,
    }
}

pub open spec fn format_valid(f: FormatView) -> bool {
    match f.extensible {
        Some(e) => f.audio_format == WaveFormat::Extensible && e.sub_format_guid.len() == 16,
        None => f.audio_format != WaveFormat::Extensible,
    }
}

pub open spec fn data_valid(d: DataView) -> bool {
    d.data.len() == d.size
}

/// The chunks' encodings one after another.
pub open spec fn concat_chunks(cs: Seq<ChunkView>) -> Seq<u8>
    decreases cs.len(),
{
    if cs.len() == 0 {
        Seq::empty()
    } else {
        chunk_bytes(cs[0]) + concat_chunks(cs.drop_first())
    }
}

proof fn lemma_u32_field(s: Seq<u8>, p: int, v: u32)
    requires
        0 <= p,
        p + 4 <= s.len(),
        s.subrange(p, p + 4) == u32_bytes(v),
    ensures
        le32_at(s, p) == v,
{
    lemma_le32_of_bytes(v);
    assert(s[p] == s.subrange(p, p + 4)[0]);
    assert(s[p + 1] == s.subrange(p, p + 4)[1]);
    assert(s[p + 2] == s.subrange(p, p + 4)[2]);
    assert(s[p + 3] == s.subrange(p, p + 4)[3]);
}

proof fn lemma_u16_field(s: Seq<u8>, p: int, v: u16)
    requires
        0 <= p,
        p + 2 <= s.len(),
        s.subrange(p, p + 2) == u16_bytes(v),
    ensures
        le16_at(s, p) == v,
{
    lemma_le16_of_bytes(v);
    assert(s[p] == s.subrange(p, p + 2)[0]);
    assert(s[p + 1] == s.subrange(p, p + 2)[1]);
}

/// A piece of a piece of `s` is a piece of `s`.
proof fn lemma_sub(s: Seq<u8>, pos: int, x: Seq<u8>, a: int, b: int)
    requires
        0 <= pos,
        pos + x.len() <= s.len(),
        s.subrange(pos, pos + x.len()) == x,
        0 <= a <= b <= x.len(),
    ensures
        s.subrange(pos + a, pos + b) == x.subrange(a, b),
{
    assert(s.subrange(pos + a, pos + b) =~= x.subrange(a, b)) by {
        assert forall|i: int| 0 <= i < b - a implies s.subrange(pos + a, pos + b)[i] == x.subrange(
            a,
            b,
        )[i] by {
            assert(s.subrange(pos, pos + x.len())[a + i] == s[pos + a + i]);
        }
    }
}

/// The first byte of each magic tag tells the tags apart.
proof fn lemma_magic_first_byte(s: Seq<u8>, pos: int)
    requires
        0 <= pos < s.len(),
    ensures
        has_magic(s, pos, riff_magic()) ==> s[pos] == 82,
        has_magic(s, pos, format_magic()) ==> s[pos] == 87,
        has_magic(s, pos, fact_magic()) ==> s[pos] == 102,
        has_magic(s, pos, peak_magic()) ==> s[pos] == 80,
        has_magic(s, pos, data_magic()) ==> s[pos] == 100,
{
    if pos + 4 <= s.len() {
        assert(s.subrange(pos, pos + 4)[0] == s[pos]);
    }
    if pos + 8 <= s.len() {
        assert(s.subrange(pos, pos + 8)[0] == s[pos]);
    }
}

proof fn lemma_riff_encoded(s: Seq<u8>, pos: int, c: ChunkView)
    requires
        c is Riff,
        0 <= pos,
        pos + chunk_bytes(c).len() <= s.len(),
        s.subrange(pos, pos + chunk_bytes(c).len()) == chunk_bytes(c),
    ensures
        has_magic(s, pos, riff_magic()),
        riff_at(s, pos) == Ok::<(ChunkView, int), WaverlyError>((c, pos + chunk_bytes(c).len())),
{
    reveal(chunk_bytes);
    let x = chunk_bytes(c);
    let r = c->Riff_0;
    lemma_sub(s, pos, x, 0, 4);
    assert(x.subrange(0, 4) =~= riff_magic());
    lemma_sub(s, pos, x, 4, 8);
    assert(x.subrange(4, 8) =~= u32_bytes(r.size));
    lemma_u32_field(s, pos + 4, r.size);
}

proof fn lemma_extensible_encoded(s: Seq<u8>, pos: int, e: ExtensibleView)
    requires
        e.sub_format_guid.len() == 16,
        0 <= pos,
        pos + 24 <= s.len(),
        s.subrange(pos, pos + 24) == extensible_bytes(e),
    ensures
        extensible_at(s, pos) == e,
{
    let x = extensible_bytes(e);
    lemma_sub(s, pos, x, 0, 2);
    assert(x.subrange(0, 2) =~= u16_bytes(e.size));
    lemma_u16_field(s, pos, e.size);
    lemma_sub(s, pos, x, 2, 4);
    assert(x.subrange(2, 4) =~= u16_bytes(e.valid_bits_per_sample));
    lemma_u16_field(s, pos + 2, e.valid_bits_per_sample);
    lemma_sub(s, pos, x, 4, 8);
    assert(x.subrange(4, 8) =~= u32_bytes(e.channel_mask));
    lemma_u32_field(s, pos + 4, e.channel_mask);
    lemma_sub(s, pos, x, 8, 24);
    assert(x.subrange(8, 24) =~= e.sub_format_guid);
}

/// The fixed part of a format chunk, up to its extensible part.
pub open spec fn format_head_bytes(f: FormatView) -> Seq<u8> {
    format_magic() + u32_bytes(f.size) + u16_bytes(format_code(f.audio_format)) + u16_bytes(
        f.num_channels,
    ) + u32_bytes(f.sample_rate) + u32_bytes(f.byte_rate) + u16_bytes(f.block_align) + u16_bytes(
        depth_bits(f.bits_per_sample),
    )
}

#[verifier::spinoff_prover]
proof fn lemma_format_head(s: Seq<u8>, pos: int, f: FormatView)
    requires
        0 <= pos,
        pos + 28 <= s.len(),
        s.subrange(pos, pos + 28) == format_head_bytes(f),
    ensures
        has_magic(s, pos, format_magic()),
        le32_at(s, pos + 8) == f.size,
        le16_at(s, pos + 12) == format_code(f.audio_format),
        le16_at(s, pos + 14) == f.num_channels,
        le32_at(s, pos + 16) == f.sample_rate,
        le32_at(s, pos + 20) == f.byte_rate,
        le16_at(s, pos + 24) == f.block_align,
        le16_at(s, pos + 26) == depth_bits(f.bits_per_sample),
{
    let x = format_head_bytes(f);
    lemma_sub(s, pos, x, 0, 8);
    assert(x.subrange(0, 8) =~= format_magic());
    lemma_sub(s, pos, x, 8, 12);
    assert(x.subrange(8, 12) =~= u32_bytes(f.size));
    lemma_u32_field(s, pos + 8, f.size);
    lemma_sub(s, pos, x, 12, 14);
    assert(x.subrange(12, 14) =~= u16_bytes(format_code(f.audio_format)));
    lemma_u16_field(s, pos + 12, format_code(f.audio_format));
    lemma_sub(s, pos, x, 14, 16);
    assert(x.subrange(14, 16) =~= u16_bytes(f.num_channels));
    lemma_u16_field(s, pos + 14, f.num_channels);
    lemma_sub(s, pos, x, 16, 20);
    assert(x.subrange(16, 20) =~= u32_bytes(f.sample_rate));
    lemma_u32_field(s, pos + 16, f.sample_rate);
    lemma_sub(s, pos, x, 20, 24);
    assert(x.subrange(20, 24) =~= u32_bytes(f.byte_rate));
    lemma_u32_field(s, pos + 20, f.byte_rate);
    lemma_sub(s, pos, x, 24, 26);
    assert(x.subrange(24, 26) =~= u16_bytes(f.block_align));
    lemma_u16_field(s, pos + 24, f.block_align);
    lemma_sub(s, pos, x, 26, 28);
    assert(x.subrange(26, 28) =~= u16_bytes(depth_bits(f.bits_per_sample)));
    lemma_u16_field(s, pos + 26, depth_bits(f.bits_per_sample));
}

proof fn lemma_format_encoded(s: Seq<u8>, pos: int, c: ChunkView)
    requires
        c is Format,
        format_valid(c->Format_0),
        0 <= pos,
        pos + chunk_bytes(c).len() <= s.len(),
        s.subrange(pos, pos + chunk_bytes(c).len()) == chunk_bytes(c),
    ensures
        has_magic(s, pos, format_magic()),
        format_at(s, pos) == Ok::<(ChunkView, int), WaverlyError>((c, pos + chunk_bytes(c).len())),
{
    reveal(chunk_bytes);
    let x = chunk_bytes(c);
    let f = c->Format_0;
    let head = format_head_bytes(f);
    assert(x =~= head + match f.extensible {
        Some(e) => extensible_bytes(e),
        None => Seq::<u8>::empty(),
    });
    lemma_sub(s, pos, x, 0, 28);
    assert(x.subrange(0, 28) =~= head);
    lemma_format_head(s, pos, f);
    match f.extensible {
        Some(e) => {
            lemma_sub(s, pos, x, 28, 52);
            assert(x.subrange(28, 52) =~= extensible_bytes(e));
            lemma_extensible_encoded(s, pos + 28, e);
        },
        None => {},
    }
}

proof fn lemma_fact_encoded(s: Seq<u8>, pos: int, c: ChunkView)
    requires
        c is Fact,
        0 <= pos,
        pos + chunk_bytes(c).len() <= s.len(),
        s.subrange(pos, pos + chunk_bytes(c).len()) == chunk_bytes(c),
    ensures
        has_magic(s, pos, fact_magic()),
        fact_at(s, pos) == Ok::<(ChunkView, int), WaverlyError>((c, pos + chunk_bytes(c).len())),
{
    reveal(chunk_bytes);
    let x = chunk_bytes(c);
    let fc = c->Fact_0;
    lemma_sub(s, pos, x, 0, 4);
    assert(x.subrange(0, 4) =~= fact_magic());
    lemma_sub(s, pos, x, 4, 8);
    assert(x.subrange(4, 8) =~= u32_bytes(fc.size));
    lemma_u32_field(s, pos + 4, fc.size);
    lemma_sub(s, pos, x, 8, 12);
    assert(x.subrange(8, 12) =~= u32_bytes(fc.data));
    lemma_u32_field(s, pos + 8, fc.data);
}

#[verifier::spinoff_prover]
proof fn lemma_peak_encoded(s: Seq<u8>, pos: int, c: ChunkView)
    requires
        c is Peak,
        (c->Peak_0).peaks.len() == 2,
        0 <= pos,
        pos + chunk_bytes(c).len() <= s.len(),
        s.subrange(pos, pos + chunk_bytes(c).len()) == chunk_bytes(c),
    ensures
        has_magic(s, pos, peak_magic()),
        peak_at(s, pos) == Ok::<(ChunkView, int), WaverlyError>((c, pos + chunk_bytes(c).len())),
{
    reveal(chunk_bytes);
    let x = chunk_bytes(c);
    let p = c->Peak_0;
    let p0 = p.peaks[0];
    let p1 = p.peaks[1];
    reveal_with_fuel(peaks_bytes, 3);
    assert(p.peaks.drop_last().drop_last() =~= Seq::<Peak>::empty());
    assert(p.peaks.drop_last().last() == p0);
    assert(peaks_bytes(p.peaks) =~= u32_bytes(p0.value_bits) + u32_bytes(p0.position) + u32_bytes(
        p1.value_bits,
    ) + u32_bytes(p1.position));
    lemma_sub(s, pos, x, 0, 4);
    assert(x.subrange(0, 4) =~= peak_magic());
    lemma_sub(s, pos, x, 4, 8);
    assert(x.subrange(4, 8) =~= u32_bytes(p.size));
    lemma_u32_field(s, pos + 4, p.size);
    lemma_sub(s, pos, x, 8, 12);
    assert(x.subrange(8, 12) =~= u32_bytes(p.version));
    lemma_u32_field(s, pos + 8, p.version);
    lemma_sub(s, pos, x, 12, 16);
    assert(x.subrange(12, 16) =~= u32_bytes(p.timestamp));
    lemma_u32_field(s, pos + 12, p.timestamp);
    lemma_sub(s, pos, x, 16, 20);
    assert(x.subrange(16, 20) =~= u32_bytes(p0.value_bits));
    lemma_u32_field(s, pos + 16, p0.value_bits);
    lemma_sub(s, pos, x, 20, 24);
    assert(x.subrange(20, 24) =~= u32_bytes(p0.position));
    lemma_u32_field(s, pos + 20, p0.position);
    lemma_sub(s, pos, x, 24, 28);
    assert(x.subrange(24, 28) =~= u32_bytes(p1.value_bits));
    lemma_u32_field(s, pos + 24, p1.value_bits);
    lemma_sub(s, pos, x, 28, 32);
    assert(x.subrange(28, 32) =~= u32_bytes(p1.position));
    lemma_u32_field(s, pos + 28, p1.position);
    assert(seq![peak_record_at(s, pos + 16), peak_record_at(s, pos + 24)] =~= p.peaks);
}

proof fn lemma_data_encoded(s: Seq<u8>, pos: int, c: ChunkView)
    requires
        c is Data,
        data_valid(c->Data_0),
        0 <= pos,
        pos + chunk_bytes(c).len() <= s.len(),
        s.subrange(pos, pos + chunk_bytes(c).len()) == chunk_bytes(c),
    ensures
        has_magic(s, pos, data_magic()),
        data_at(s, pos) == Ok::<(ChunkView, int), WaverlyError>((c, pos + chunk_bytes(c).len())),
{
    reveal(chunk_bytes);
    let x = chunk_bytes(c);
    let d = c->Data_0;
    lemma_sub(s, pos, x, 0, 4);
    assert(x.subrange(0, 4) =~= data_magic());
    lemma_sub(s, pos, x, 4, 8);
    assert(x.subrange(4, 8) =~= u32_bytes(d.size));
    lemma_u32_field(s, pos + 4, d.size);
    lemma_sub(s, pos, x, 8, x.len() as int);
    assert(x.subrange(8, x.len() as int) =~= d.data);
}

/// An encoded chunk is decoded back to itself, whatever follows it.
proof fn lemma_step_encoded(s: Seq<u8>, pos: int, c: ChunkView)
    requires
        chunk_valid(c),
        0 <= pos,
        pos + chunk_bytes(c).len() <= s.len(),
        s.subrange(pos, pos + chunk_bytes(c).len()) == chunk_bytes(c),
    ensures
        chunk_bytes(c).len() > 0,
        step_at(s, pos) == Ok::<(Option<ChunkView>, int), WaverlyError>(
            (Some(c), pos + chunk_bytes(c).len()),
        ),
{
    reveal(chunk_bytes);
    let x = chunk_bytes(c);
    assert(x.len() >= 4);
    assert(s[pos] == x[0]) by {
        assert(s.subrange(pos, pos + x.len())[0] == s[pos]);
    }
    lemma_magic_first_byte(s, pos);
    match c {
        ChunkView::Riff(_) => lemma_riff_encoded(s, pos, c),
        ChunkView::Format(_) => lemma_format_encoded(s, pos, c),
        ChunkView::Fact(_) => lemma_fact_encoded(s, pos, c),
        ChunkView::Peak(_) => lemma_peak_encoded(s, pos, c),
        ChunkView::Data(_) => lemma_data_encoded(s, pos, c),
    }
}

/// A run of encoded chunks decodes back to those chunks.
proof fn lemma_chunks_from_concat(pre: Seq<u8>, cs: Seq<ChunkView>)
    requires
        forall|i: int| 0 <= i < cs.len() ==> chunk_valid(#[trigger] cs[i]),
    ensures
        chunks_from(pre + concat_chunks(cs), pre.len() as int) == Ok::<
            Seq<ChunkView>,
            WaverlyError,
        >(cs),
    decreases cs.len(),
{
    let s = pre + concat_chunks(cs);
    if cs.len() == 0 {
        assert(s.len() == pre.len());
        assert(cs =~= Seq::<ChunkView>::empty());
    } else {
        let c = cs[0];
        let cb = chunk_bytes(c);
        let rest = cs.drop_first();
        let pre2 = pre + cb;
        assert(s =~= pre2 + concat_chunks(rest));
        assert(s.subrange(pre.len() as int, pre.len() + cb.len() as int) =~= cb);
        assert(chunk_valid(cs[0]));
        lemma_step_encoded(s, pre.len() as int, c);
        assert forall|i: int| 0 <= i < rest.len() implies chunk_valid(#[trigger] rest[i]) by {
            assert(rest[i] == cs[i + 1]);
        }
        lemma_chunks_from_concat(pre2, rest);
        assert(seq![c] + rest =~= cs);
    }
}

proof fn lemma_concat_append(a: Seq<ChunkView>, b: Seq<ChunkView>)
    ensures
        concat_chunks(a + b) == concat_chunks(a) + concat_chunks(b),
    decreases a.len(),
{
    if a.len() == 0 {
        assert(a + b =~= b);
        assert(concat_chunks(a) + concat_chunks(b) =~= concat_chunks(b));
    } else {
        assert((a + b).drop_first() =~= a.drop_first() + b);
        lemma_concat_append(a.drop_first(), b);
        assert(concat_chunks(a + b) =~= concat_chunks(a) + concat_chunks(b));
    }
}

proof fn lemma_concat_one(c: ChunkView)
    ensures
        concat_chunks(seq![c]) == chunk_bytes(c),
{
    reveal_with_fuel(concat_chunks, 2);
    assert(seq![c].drop_first() =~= Seq::<ChunkView>::empty());
    assert(chunk_bytes(c) + Seq::<u8>::empty() =~= chunk_bytes(c));
}

/// Every chunk and its encoding is valid for a round trip.
pub open spec fn wave_valid(w: WaveView) -> bool {
    &&& format_valid(w.format)
    &&& data_valid(w.data)
    &&& match w.peak {
        Some(p) => p.peaks.len() == 2,
        None => true,
    }
}

/// The FACT chunk of `w`, when present.
pub open spec fn opt_fact_chunks(w: WaveView) -> Seq<ChunkView> {
    match w.fact {
        Some(f) => seq![ChunkView::Fact(f)],
        None => Seq::empty(),
    }
}

/// The PEAK chunk of `w`, when present.
pub open spec fn opt_peak_chunks(w: WaveView) -> Seq<ChunkView> {
    match w.peak {
        Some(p) => seq![ChunkView::Peak(p)],
        None => Seq::empty(),
    }
}

/// The FACT and PEAK chunks of `w`, encoded, when present.
pub open spec fn optional_bytes(w: WaveView) -> Seq<u8> {
    let fact = match w.fact {
        Some(f) => fact_bytes(f),
        None => Seq::<u8>::empty(),
    };
    let peak = match w.peak {
        Some(p) => peak_bytes(p),
        None => Seq::<u8>::empty(),
    };
    fact + peak
}

proof fn lemma_optional_bytes(w: WaveView)
    ensures
        concat_chunks(opt_fact_chunks(w) + opt_peak_chunks(w)) == optional_bytes(w),
        wave_bytes(w) == riff_bytes(w.riff) + format_bytes(w.format) + data_bytes(w.data)
            + optional_bytes(w),
{
    reveal(chunk_bytes);
    lemma_concat_append(opt_fact_chunks(w), opt_peak_chunks(w));
    match w.fact {
        Some(f) => lemma_concat_one(ChunkView::Fact(f)),
        None => {},
    }
    match w.peak {
        Some(p) => lemma_concat_one(ChunkView::Peak(p)),
        None => {},
    }
    assert(concat_chunks(opt_fact_chunks(w) + opt_peak_chunks(w)) =~= optional_bytes(w));
    assert(wave_bytes(w) =~= riff_bytes(w.riff) + format_bytes(w.format) + data_bytes(w.data)
        + optional_bytes(w));
}

proof fn lemma_optional_valid(w: WaveView, head: Seq<ChunkView>)
    requires
        wave_valid(w),
        forall|i: int| 0 <= i < head.len() ==> chunk_valid(#[trigger] head[i]),
    ensures
        forall|i: int|
            0 <= i < (head + opt_fact_chunks(w) + opt_peak_chunks(w)).len() ==> chunk_valid(
                #[trigger] (head + opt_fact_chunks(w) + opt_peak_chunks(w))[i],
            ),
{
    let cs = head + opt_fact_chunks(w) + opt_peak_chunks(w);
    assert forall|i: int| 0 <= i < cs.len() implies chunk_valid(#[trigger] cs[i]) by {
        if i >= head.len() {
            assert(cs[i] == (opt_fact_chunks(w) + opt_peak_chunks(w))[i - head.len()]);
        }
    }
}

/// Decoding `head` followed by the optional chunks of `w`.
#[verifier::spinoff_prover]
proof fn lemma_decode_with_optional(w: WaveView, head: Seq<ChunkView>)
    requires
        wave_valid(w),
        forall|i: int| 0 <= i < head.len() ==> chunk_valid(#[trigger] head[i]),
        slots_of(head).fact is None,
        slots_of(head).peak is None,
    ensures
        chunks_from(concat_chunks(head) + optional_bytes(w), 0) == Ok::<
            Seq<ChunkView>,
            WaverlyError,
        >(head + opt_fact_chunks(w) + opt_peak_chunks(w)),
        slots_of(head + opt_fact_chunks(w) + opt_peak_chunks(w)) == (Slots {
            fact: w.fact,
            peak: w.peak,
            ..slots_of(head)
        }),
{
    let cs = head + opt_fact_chunks(w) + opt_peak_chunks(w);
    lemma_optional_bytes(w);
    assert(cs =~= head + (opt_fact_chunks(w) + opt_peak_chunks(w)));
    lemma_concat_append(head, opt_fact_chunks(w) + opt_peak_chunks(w));
    lemma_optional_valid(w, head);
    lemma_chunks_from_concat(Seq::empty(), cs);
    assert(Seq::<u8>::empty() + concat_chunks(cs) =~= concat_chunks(cs));
    let hf = head + opt_fact_chunks(w);
    reveal_with_fuel(slots_of, 3);
    match w.fact {
        Some(f) => {
            assert(hf.drop_last() =~= head);
        },
        None => {
            assert(hf =~= head);
        },
    }
    match w.peak {
        Some(p) => {
            assert(cs.drop_last() =~= hf);
        },
        None => {
            assert(cs =~= hf);
        },
    }
}

proof fn lemma_concat_two(a: ChunkView, b: ChunkView)
    ensures
        concat_chunks(seq![a, b]) == chunk_bytes(a) + chunk_bytes(b),
{
    lemma_concat_append(seq![a], seq![b]);
    assert(seq![a] + seq![b] =~= seq![a, b]);
    lemma_concat_one(a);
    lemma_concat_one(b);
}

proof fn lemma_concat_three(a: ChunkView, b: ChunkView, c: ChunkView)
    ensures
        concat_chunks(seq![a, b, c]) == chunk_bytes(a) + chunk_bytes(b) + chunk_bytes(c),
{
    lemma_concat_append(seq![a, b], seq![c]);
    assert(seq![a, b] + seq![c] =~= seq![a, b, c]);
    lemma_concat_two(a, b);
    lemma_concat_one(c);
}

/// What the fold into slots gives on two or three chunks.
proof fn lemma_slots_short(a: ChunkView, b: ChunkView, c: ChunkView)
    ensures
        slots_of(seq![a, b]) == slots_of(seq![a]).put(b),
        slots_of(seq![a, b, c]) == slots_of(seq![a]).put(b).put(c),
        slots_of(seq![a]) == empty_slots().put(a),
{
    reveal_with_fuel(slots_of, 4);
    assert(seq![a, b, c].drop_last() =~= seq![a, b]);
    assert(seq![a, b].drop_last() =~= seq![a]);
    assert(seq![a].drop_last() =~= Seq::<ChunkView>::empty());
}

/// Round trip of canonical order: bytes that encode a valid wave in the order
/// RIFF, format, data, FACT, PEAK decode to that wave, so encoding the result
/// gives back the same bytes.
#[verifier::spinoff_prover]
pub proof fn lemma_canonical_round_trip(bytes: Seq<u8>, w: WaveView, require_fact: bool)
    requires
        wave_valid(w),
        require_fact && w.format.audio_format != WaveFormat::Pcm ==> w.fact is Some,
        bytes == wave_bytes(w),
    ensures
        decode_wave(bytes, require_fact) == Ok::<WaveView, WaverlyError>(w),
        wave_bytes(decode_wave(bytes, require_fact).unwrap()) == bytes,
{
    let (r, f, d) = (ChunkView::Riff(w.riff), ChunkView::Format(w.format), ChunkView::Data(w.data));
    let head = seq![r, f, d];
    lemma_concat_three(r, f, d);
    lemma_slots_short(r, f, d);
    lemma_optional_bytes(w);
    assert(concat_chunks(head) == riff_bytes(w.riff) + format_bytes(w.format) + data_bytes(w.data))
        by {
        reveal(chunk_bytes);
    }
    assert(forall|i: int| 0 <= i < head.len() ==> chunk_valid(#[trigger] head[i])) by {
        assert(head[0] == r && head[1] == f && head[2] == d);
    }
    lemma_decode_with_optional(w, head);
    let cs = head + opt_fact_chunks(w) + opt_peak_chunks(w);
    assert(chunks_from(bytes, 0) == Ok::<Seq<ChunkView>, WaverlyError>(cs));
    assert(slots_of(cs) == (Slots { riff: Some(w.riff), format: Some(w.format), data: Some(w.data), fact: w.fact, peak: w.peak }));
}

/// Decoding two chunks of `w`'s required ones, then its optional ones.
#[verifier::spinoff_prover]
proof fn lemma_decode_two(w: WaveView, a: ChunkView, b: ChunkView, require_fact: bool)
    requires
        wave_valid(w),
        chunk_valid(a),
        chunk_valid(b),
        !(a is Fact) && !(a is Peak) && !(b is Fact) && !(b is Peak),
    ensures
        decode_wave(chunk_bytes(a) + chunk_bytes(b) + optional_bytes(w), require_fact) == assemble(
            Slots { fact: w.fact, peak: w.peak, ..empty_slots().put(a).put(b) },
            require_fact,
        ),
{
    lemma_concat_two(a, b);
    lemma_slots_short(a, b, b);
    assert(seq![a, b][0] == a && seq![a, b][1] == b);
    lemma_decode_with_optional(w, seq![a, b]);
}

/// Removing the RIFF header, the format chunk or the data chunk from the
/// encoding of a valid wave makes decoding fail with the matching error.
pub proof fn lemma_missing_required(w: WaveView, require_fact: bool)
    requires
        wave_valid(w),
    ensures
        decode_wave(format_bytes(w.format) + data_bytes(w.data) + optional_bytes(w), require_fact)
            == Err::<WaveView, WaverlyError>(WaverlyError::MissingRiff),
        decode_wave(riff_bytes(w.riff) + data_bytes(w.data) + optional_bytes(w), require_fact)
            == Err::<WaveView, WaverlyError>(WaverlyError::MissingFormat),
        decode_wave(riff_bytes(w.riff) + format_bytes(w.format) + optional_bytes(w), require_fact)
            == Err::<WaveView, WaverlyError>(WaverlyError::MissingData),
{
    let (r, f, d) = (ChunkView::Riff(w.riff), ChunkView::Format(w.format), ChunkView::Data(w.data));
    assert(chunk_bytes(r) == riff_bytes(w.riff) && chunk_bytes(f) == format_bytes(w.format)
        && chunk_bytes(d) == data_bytes(w.data)) by {
        reveal(chunk_bytes);
    }
    lemma_decode_two(w, f, d, require_fact);
    lemma_decode_two(w, r, d, require_fact);
    lemma_decode_two(w, r, f, require_fact);
}

/// With FACT chunks required, a valid wave whose format is not PCM and which
/// has no FACT chunk does not decode: the error is the missing FACT chunk.
pub proof fn lemma_missing_fact(bytes: Seq<u8>, w: WaveView)
    requires
        wave_valid(w),
        w.format.audio_format != WaveFormat::Pcm,
        w.fact is None,
        bytes == wave_bytes(w),
    ensures
        decode_wave(bytes, true) == Err::<WaveView, WaverlyError>(WaverlyError::MissingFact),
{
    lemma_canonical_round_trip(bytes, w, false);
}

/// A RIFF header, a format chunk and a data chunk, then the end of the bytes,
/// decode without error (with FACT chunks required, when the format is PCM).
pub proof fn lemma_required_only(
    r: RiffChunk,
    f: FormatView,
    d: DataView,
    require_fact: bool,
)
    requires
        format_valid(f),
        data_valid(d),
        require_fact ==> f.audio_format == WaveFormat::Pcm,
    ensures
        decode_wave(riff_bytes(r) + format_bytes(f) + data_bytes(d), require_fact) == Ok::<
            WaveView,
            WaverlyError,
        >(WaveView { riff: r, format: f, data: d, fact: None, peak: None }),
{
    let w = WaveView { riff: r, format: f, data: d, fact: None, peak: None };
    assert(wave_bytes(w) =~= riff_bytes(r) + format_bytes(f) + data_bytes(d));
    lemma_canonical_round_trip(wave_bytes(w), w, require_fact);
}

/// A data chunk whose size field is the length of its payload decodes to
/// exactly that payload, and encodes back to the same bytes.
pub proof fn lemma_data_round_trip(payload: Seq<u8>)
    requires
        payload.len() <= u32::MAX,
    ensures
        ({
            let d = DataView { size: payload.len() as u32, data: payload };
            let b = data_magic() + u32_bytes(payload.len() as u32) + payload;
            &&& chunks_from(b, 0) == Ok::<Seq<ChunkView>, WaverlyError>(seq![ChunkView::Data(d)])
            &&& data_bytes(d) == b
        }),
{
    let d = DataView { size: payload.len() as u32, data: payload };
    let c = ChunkView::Data(d);
    lemma_concat_one(c);
    assert(seq![c][0] == c);
    lemma_chunks_from_concat(Seq::empty(), seq![c]);
    assert(chunk_bytes(c) == data_bytes(d)) by {
        reveal(chunk_bytes);
    }
    assert(Seq::<u8>::empty() + data_bytes(d) =~= data_bytes(d));
}

} // verus!
