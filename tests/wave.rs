use waverly::{
    read_step, BitDepth, Chunk, DataChunk, FactChunk, Peak, PeakChunk, Wave, WaveFormat,
    WaverlyError,
};

fn u16le(v: u16) -> Vec<u8> {
    v.to_le_bytes().to_vec()
}

fn u32le(v: u32) -> Vec<u8> {
    v.to_le_bytes().to_vec()
}

fn riff(size: u32) -> Vec<u8> {
    let mut b = b"RIFF".to_vec();
    b.extend(u32le(size));
    b
}

fn fmt(code: u16, channels: u16, rate: u32, bits: u16, ext: Option<&[u8]>) -> Vec<u8> {
    let align = channels * bits / 8;
    let mut b = b"WAVEfmt ".to_vec();
    b.extend(u32le(if ext.is_some() { 40 } else { 16 }));
    b.extend(u16le(code));
    b.extend(u16le(channels));
    b.extend(u32le(rate));
    b.extend(u32le(rate * align as u32));
    b.extend(u16le(align));
    b.extend(u16le(bits));
    if let Some(e) = ext {
        b.extend_from_slice(e);
    }
    b
}

fn data(payload: &[u8]) -> Vec<u8> {
    let mut b = b"data".to_vec();
    b.extend(u32le(payload.len() as u32));
    b.extend_from_slice(payload);
    b
}

fn fact(size: u32, value: u32) -> Vec<u8> {
    let mut b = b"fact".to_vec();
    b.extend(u32le(size));
    b.extend(u32le(value));
    b
}

fn peak(p0: (f32, u32), p1: (f32, u32)) -> Vec<u8> {
    let mut b = b"PEAK".to_vec();
    b.extend(u32le(24));
    b.extend(u32le(1));
    b.extend(u32le(1_600_000_000));
    b.extend(u32le(p0.0.to_bits()));
    b.extend(u32le(p0.1));
    b.extend(u32le(p1.0.to_bits()));
    b.extend(u32le(p1.1));
    b
}

fn cat(parts: &[Vec<u8>]) -> Vec<u8> {
    parts.concat()
}

/// A stereo 64-bit float file with FACT and PEAK chunks, in canonical order.
fn float_fixture() -> Vec<u8> {
    let payload: Vec<u8> = (0u8..32).collect();
    cat(&[
        riff(4 + 24 + 8 + 32 + 12 + 32),
        fmt(3, 2, 44100, 64, None),
        data(&payload),
        fact(4, 2),
        peak((0.5, 1), (-0.25, 3)),
    ])
}

fn encode(w: Wave) -> Vec<u8> {
    let mut out = Vec::new();
    w.write(&mut out);
    out
}

#[test]
fn it_reads_format() {
    let wave = Wave::from_reader(&float_fixture()).unwrap();
    let f = &wave.format;
    assert_eq!(f.sample_rate, 44100);

    assert_eq!(f.bits_per_sample, BitDepth::SixtyFour);
    assert_eq!(f.num_channels, 2);
    assert_eq!(f.audio_format, WaveFormat::IeeeFloat);

    let block_align = f.num_channels * f.bits_per_sample.bits() / 8;
    let byte_rate = f.sample_rate * block_align as u32;
    assert_eq!(f.byte_rate, byte_rate);
    assert_eq!(f.byte_rate, 705600);
    assert_eq!(f.block_align, block_align);
    assert_eq!(f.block_align, 16);
    assert_eq!(f.extensible, None);
}

#[test]
fn it_writes_data_correctly() {
    let input = float_fixture();
    let wave = Wave::from_reader(&input).unwrap();
    let buf = encode(wave);
    assert_eq!(buf.len(), input.len());
    assert_ne!(buf.len(), 0);
    let riff_magic: Vec<u8> = buf.into_iter().take(4).collect();
    assert_eq!([82, 73, 70, 70], riff_magic[..]);
}

#[test]
fn reads_every_chunk() {
    let wave = Wave::from_reader(&float_fixture()).unwrap();
    assert_eq!(wave.riff.size, 112);
    assert_eq!(wave.format.size, 16);
    assert_eq!(wave.data.size, 32);
    assert_eq!(wave.data.data, (0u8..32).collect::<Vec<u8>>());
    assert_eq!(wave.fact, Some(FactChunk { size: 4, data: 2 }));
    let p = wave.peak.unwrap();
    assert_eq!(p.size, 24);
    assert_eq!(p.version, 1);
    assert_eq!(p.timestamp, 1_600_000_000);
    assert_eq!(p.peaks.len(), 2);
    assert_eq!(f32::from_bits(p.peaks[0].value_bits), 0.5);
    assert_eq!(p.peaks[0].position, 1);
    assert_eq!(f32::from_bits(p.peaks[1].value_bits), -0.25);
    assert_eq!(p.peaks[1].position, 3);
}

#[test]
fn canonical_round_trip_is_exact() {
    let input = float_fixture();
    assert_eq!(encode(Wave::from_reader(&input).unwrap()), input);
}

#[test]
fn canonical_round_trip_pcm_without_optional_chunks() {
    let input = cat(&[riff(36 + 3), fmt(1, 1, 8000, 8, None), data(&[1, 2, 3])]);
    assert_eq!(encode(Wave::from_reader(&input).unwrap()), input);
}

#[test]
fn canonical_round_trip_extensible() {
    let mut ext = Vec::new();
    ext.extend(u16le(22));
    ext.extend(u16le(24));
    ext.extend(u32le(3));
    ext.extend((100u8..116).collect::<Vec<u8>>());
    let input = cat(&[
        riff(0),
        fmt(8, 2, 48000, 32, Some(&ext)),
        data(&[9, 9]),
        fact(4, 1),
    ]);
    let wave = Wave::from_reader(&input).unwrap();
    let e = wave.format.extensible.unwrap();
    assert_eq!(e.size, 22);
    assert_eq!(e.valid_bits_per_sample, 24);
    assert_eq!(e.channel_mask, 3);
    assert_eq!(e.sub_format_guid.to_vec(), (100u8..116).collect::<Vec<u8>>());
    assert_eq!(encode(wave), input);
}

#[test]
fn extensible_part_only_for_extensible_format() {
    // A PCM format chunk is followed directly by the next chunk.
    let input = cat(&[riff(0), fmt(1, 2, 44100, 16, None), data(&[0, 0, 0, 0])]);
    let wave = Wave::from_reader(&input).unwrap();
    assert_eq!(wave.format.extensible, None);
    assert_eq!(wave.data.size, 4);
}

#[test]
fn missing_riff_is_reported() {
    let input = cat(&[fmt(3, 2, 44100, 64, None), data(&[1]), fact(4, 1)]);
    assert_eq!(Wave::from_reader(&input), Err(WaverlyError::MissingRiff));
}

#[test]
fn missing_format_is_reported() {
    let input = cat(&[riff(0), data(&[1]), fact(4, 1)]);
    assert_eq!(Wave::from_reader(&input), Err(WaverlyError::MissingFormat));
}

#[test]
fn missing_data_is_reported() {
    let input = cat(&[riff(0), fmt(3, 2, 44100, 64, None), fact(4, 1)]);
    assert_eq!(Wave::from_reader(&input), Err(WaverlyError::MissingData));
}

#[test]
fn empty_input_misses_riff() {
    assert_eq!(Wave::from_reader(&[]), Err(WaverlyError::MissingRiff));
}

#[test]
fn float_without_fact_is_reported() {
    let input = cat(&[riff(0), fmt(3, 2, 44100, 64, None), data(&[1, 2])]);
    assert_eq!(Wave::from_reader(&input), Err(WaverlyError::MissingFact));
    let lenient = Wave::from_reader_with(&input, false).unwrap();
    assert_eq!(lenient.fact, None);
    assert_eq!(lenient.format.audio_format, WaveFormat::IeeeFloat);
}

#[test]
fn required_chunks_alone_decode() {
    let input = cat(&[riff(0), fmt(1, 2, 44100, 16, None), data(&[5, 6, 7, 8])]);
    let wave = Wave::from_reader(&input).unwrap();
    assert_eq!(wave.fact, None);
    assert_eq!(wave.peak, None);
    assert_eq!(wave.data.data, vec![5, 6, 7, 8]);
    let alaw = cat(&[riff(0), fmt(6, 1, 8000, 8, None), data(&[5])]);
    assert!(Wave::from_reader_with(&alaw, false).is_ok());
}

#[test]
fn data_chunk_round_trip() {
    for len in [0usize, 1, 7, 300] {
        let payload: Vec<u8> = (0..len).map(|i| (i * 37 % 251) as u8).collect();
        let bytes = data(&payload);
        match read_step(&bytes, 0).unwrap() {
            (Some(Chunk::Data(d)), next) => {
                assert_eq!(next, bytes.len());
                assert_eq!(d.size as usize, len);
                assert_eq!(d.data, payload);
                let mut out = Vec::new();
                d.write(&mut out);
                assert_eq!(out, bytes);
            }
            other => panic!("unexpected step {:?}", other),
        }
    }
}

#[test]
fn filler_bytes_are_skipped() {
    let input = cat(&[
        riff(0),
        vec![0],
        fmt(1, 2, 44100, 16, None),
        vec![0, 0],
        data(&[1, 2, 3]),
        vec![0],
    ]);
    let wave = Wave::from_reader(&input).unwrap();
    assert_eq!(wave.data.data, vec![1, 2, 3]);
    assert_eq!(read_step(&input, 8).unwrap().0, None);
    assert_eq!(read_step(&input, 8).unwrap().1, 9);
    // Written back without the filler bytes.
    assert_eq!(encode(wave).len(), input.len() - 4);
}

#[test]
fn unknown_chunk_is_reported() {
    let input = cat(&[riff(0), b"LIST".to_vec(), fmt(1, 2, 44100, 16, None)]);
    assert_eq!(Wave::from_reader(&input), Err(WaverlyError::UnknownChunk { pos: 8 }));
}

#[test]
fn truncated_chunk_is_reported() {
    let mut input = cat(&[riff(0), fmt(1, 2, 44100, 16, None), data(&[1, 2, 3, 4])]);
    input.pop();
    assert_eq!(Wave::from_reader(&input), Err(WaverlyError::UnexpectedEof { pos: 36 }));
    let short_riff = b"RIFF\x01\x02".to_vec();
    assert_eq!(Wave::from_reader(&short_riff), Err(WaverlyError::UnexpectedEof { pos: 0 }));
}

#[test]
fn unknown_audio_format_is_reported() {
    let input = cat(&[riff(0), fmt(2, 2, 44100, 16, None), data(&[])]);
    assert_eq!(
        Wave::from_reader(&input),
        Err(WaverlyError::UnknownAudioFormat { pos: 20, code: 2 })
    );
}

#[test]
fn unknown_bit_depth_is_reported() {
    let input = cat(&[riff(0), fmt(1, 2, 44100, 12, None), data(&[])]);
    assert_eq!(
        Wave::from_reader(&input),
        Err(WaverlyError::UnknownBitDepth { pos: 34, bits: 12 })
    );
}

#[test]
fn later_chunk_of_a_kind_wins() {
    let input = cat(&[
        riff(1),
        fmt(1, 2, 44100, 16, None),
        data(&[1]),
        riff(2),
        data(&[2, 2]),
    ]);
    let wave = Wave::from_reader(&input).unwrap();
    assert_eq!(wave.riff.size, 2);
    assert_eq!(wave.data.data, vec![2, 2]);
}

#[test]
fn written_in_canonical_order() {
    let pk = peak((1.0, 0), (0.75, 9));
    let input = cat(&[
        pk.clone(),
        fact(4, 7),
        data(&[3, 4]),
        fmt(3, 2, 44100, 32, None),
        riff(60),
    ]);
    let wave = Wave::from_reader(&input).unwrap();
    let expected = cat(&[
        riff(60),
        fmt(3, 2, 44100, 32, None),
        data(&[3, 4]),
        fact(4, 7),
        pk,
    ]);
    assert_eq!(encode(wave), expected);
}

#[test]
fn fact_body_is_four_bytes_whatever_its_size() {
    // A declared size of 8 with zero padding: the padding is skipped as filler.
    let mut padded = fact(8, 5);
    padded.extend([0, 0, 0, 0]);
    let input = cat(&[riff(0), fmt(3, 1, 8000, 32, None), data(&[]), padded]);
    let wave = Wave::from_reader(&input).unwrap();
    assert_eq!(wave.fact, Some(FactChunk { size: 8, data: 5 }));
    // Extra bytes that are not zero misalign the next chunk.
    let mut bad = fact(8, 5);
    bad.extend([1, 2, 3, 4]);
    let input = cat(&[riff(0), fmt(3, 1, 8000, 32, None), data(&[]), bad]);
    assert_eq!(
        Wave::from_reader(&input),
        Err(WaverlyError::UnknownChunk { pos: 8 + 28 + 8 + 12 })
    );
}

#[test]
fn format_codes_and_depths() {
    assert_eq!(WaveFormat::from_code(1), Some(WaveFormat::Pcm));
    assert_eq!(WaveFormat::from_code(3), Some(WaveFormat::IeeeFloat));
    assert_eq!(WaveFormat::from_code(6), Some(WaveFormat::Alaw));
    assert_eq!(WaveFormat::from_code(7), Some(WaveFormat::Mulaw));
    assert_eq!(WaveFormat::from_code(8), Some(WaveFormat::Extensible));
    assert_eq!(WaveFormat::from_code(4), None);
    assert_eq!(WaveFormat::Mulaw.code(), 7);
    assert_eq!(BitDepth::from_bits(24), Some(BitDepth::TwentyFour));
    assert_eq!(BitDepth::from_bits(0), None);
    assert_eq!(BitDepth::Eight.bits(), 8);
    assert_eq!(BitDepth::ThirtyTwo.bits(), 32);
}

#[test]
fn peak_chunk_written_with_two_records() {
    let p = PeakChunk {
        size: 24,
        version: 1,
        timestamp: 1_600_000_000,
        peaks: vec![
            Peak { value_bits: 0.5f32.to_bits(), position: 1 },
            Peak { value_bits: (-0.25f32).to_bits(), position: 3 },
        ],
    };
    let mut out = Vec::new();
    p.write(&mut out);
    assert_eq!(out, peak((0.5, 1), (-0.25, 3)));
}

#[test]
fn data_chunk_written_as_is() {
    let d = DataChunk { size: 3, data: vec![7, 8, 9] };
    let mut out = Vec::new();
    d.write(&mut out);
    assert_eq!(out, data(&[7, 8, 9]));
}
