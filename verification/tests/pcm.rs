use pyin_rs::{i16_from_word, parse_pcm_bytes, parse_pcm_bytes_into, PcmFormat};

fn to_unit_f32(word: u32) -> f32 {
    i16_from_word(word) as f32 / 32768.0
}

#[test]
fn pcm_parsing_roundtrip_i16le() {
    let samples: [i16; 4] = [0, 32767, -32768, 12345];
    let mut bytes = Vec::new();
    for s in samples {
        bytes.extend_from_slice(&s.to_le_bytes());
    }

    let mut leftover = Vec::new();
    let parsed = parse_pcm_bytes(&bytes, PcmFormat::I16LE, &mut leftover);
    assert!(leftover.is_empty());
    let decoded: Vec<i16> = parsed
        .iter()
        .map(|w| to_unit_f32(*w))
        .map(|v| (v * 32768.0).round().clamp(-32768.0, 32767.0) as i16)
        .collect();
    assert_eq!(decoded, samples);
}

#[test]
fn default_format_is_i16le() {
    assert_eq!(PcmFormat::default(), PcmFormat::I16LE);
}

#[test]
fn i16_words_are_little_endian() {
    let mut leftover = Vec::new();
    let words = parse_pcm_bytes(&[0x34, 0x12, 0xff, 0xff, 0x00, 0x80], PcmFormat::I16LE, &mut leftover);
    assert_eq!(words, vec![0x1234, 0xffff, 0x8000]);
    assert_eq!(i16_from_word(0x1234), 0x1234);
    assert_eq!(i16_from_word(0xffff), -1);
    assert_eq!(i16_from_word(0x8000), -32768);
    assert!(leftover.is_empty());
}

#[test]
fn i16_odd_byte_is_carried_over() {
    let mut leftover = Vec::new();
    let words = parse_pcm_bytes(&[0x01, 0x02, 0x03], PcmFormat::I16LE, &mut leftover);
    assert_eq!(words, vec![0x0201]);
    assert_eq!(leftover, vec![0x03]);
    // an empty chunk keeps the carried byte
    let words = parse_pcm_bytes(&[], PcmFormat::I16LE, &mut leftover);
    assert!(words.is_empty());
    assert_eq!(leftover, vec![0x03]);
    // the next chunk completes it
    let words = parse_pcm_bytes(&[0x04, 0x05], PcmFormat::I16LE, &mut leftover);
    assert_eq!(words, vec![0x0403]);
    assert_eq!(leftover, vec![0x05]);
}

#[test]
fn i16_long_leftover_uses_only_first_byte() {
    let mut leftover = vec![0xaa, 0xbb, 0xcc];
    let words = parse_pcm_bytes(&[0x11, 0x22, 0x33], PcmFormat::I16LE, &mut leftover);
    assert_eq!(words, vec![0x11aa, 0x3322]);
    assert!(leftover.is_empty());
}

#[test]
fn f32_words_are_ieee_bits() {
    let values = [0.5f32, -0.25, 1.0];
    let mut bytes = Vec::new();
    for v in values {
        bytes.extend_from_slice(&v.to_le_bytes());
    }
    let mut leftover = Vec::new();
    let words = parse_pcm_bytes(&bytes, PcmFormat::F32LE, &mut leftover);
    let back: Vec<f32> = words.iter().map(|w| f32::from_bits(*w)).collect();
    assert_eq!(back, values.to_vec());
    assert!(leftover.is_empty());
}

#[test]
fn f32_partial_sample_waits_for_rest() {
    let bytes = 0.75f32.to_le_bytes();
    let mut leftover = Vec::new();
    let words = parse_pcm_bytes(&bytes[..1], PcmFormat::F32LE, &mut leftover);
    assert!(words.is_empty());
    assert_eq!(leftover, bytes[..1].to_vec());
    let words = parse_pcm_bytes(&bytes[1..2], PcmFormat::F32LE, &mut leftover);
    assert!(words.is_empty());
    assert_eq!(leftover, bytes[..2].to_vec());
    let mut chunk = bytes[2..].to_vec();
    chunk.push(0x7f);
    let words = parse_pcm_bytes(&chunk, PcmFormat::F32LE, &mut leftover);
    assert_eq!(words, vec![0.75f32.to_bits()]);
    assert_eq!(leftover, vec![0x7f]);
}

#[test]
fn f32_four_byte_leftover_is_one_sample() {
    let mut leftover = 2.0f32.to_le_bytes().to_vec();
    let words = parse_pcm_bytes(&[1, 2], PcmFormat::F32LE, &mut leftover);
    assert_eq!(words, vec![2.0f32.to_bits()]);
    assert_eq!(leftover, vec![1, 2]);
}

fn parse_in_chunks(bytes: &[u8], format: PcmFormat, pattern: &[usize]) -> (Vec<u32>, Vec<u8>) {
    let mut out = Vec::new();
    let mut leftover = Vec::new();
    let mut offset = 0;
    let mut i = 0;
    while offset < bytes.len() {
        let n = pattern[i % pattern.len()].min(bytes.len() - offset);
        parse_pcm_bytes_into(&bytes[offset..offset + n], format, &mut leftover, &mut out);
        offset += n;
        i += 1;
    }
    (out, leftover)
}

#[test]
fn chunking_does_not_change_samples() {
    let bytes: Vec<u8> = (0..1003u32).map(|i| (i * 37 % 251) as u8).collect();
    for format in [PcmFormat::I16LE, PcmFormat::F32LE] {
        let mut leftover = Vec::new();
        let whole = parse_pcm_bytes(&bytes, format, &mut leftover);
        for pattern in [&[1usize][..], &[3, 5, 7], &[511, 1023, 2048, 333, 4097, 777, 1500], &[2, 1]] {
            let (out, rest) = parse_in_chunks(&bytes, format, pattern);
            assert_eq!(out, whole);
            assert_eq!(rest, leftover);
        }
    }
}

#[test]
fn chunking_with_long_carried_bytes() {
    let bytes: Vec<u8> = (0..41u8).collect();
    for (format, start) in [(PcmFormat::I16LE, vec![9u8, 8, 7]), (PcmFormat::F32LE, vec![1u8, 2, 3, 4])] {
        let mut leftover = start.clone();
        let whole = parse_pcm_bytes(&bytes, format, &mut leftover);
        for split in [0usize, 1, 2, 5, 40, 41] {
            let mut rest = start.clone();
            let mut out = parse_pcm_bytes(&bytes[..split], format, &mut rest);
            out.extend(parse_pcm_bytes(&bytes[split..], format, &mut rest));
            assert_eq!(out, whole);
            assert_eq!(rest, leftover);
        }
    }
}
