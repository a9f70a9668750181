use pyin_rs::pcm::PcmFormat;
use pyin_rs::pipeline::PcmFrameStream;
use pyin_rs::PyinError;

fn i16_bytes(samples: &[i16]) -> Vec<u8> {
    samples.iter().flat_map(|s| s.to_le_bytes()).collect()
}

fn push_all(
    s: &mut PcmFrameStream<i32>,
    bytes: &[u8],
    chunk: usize,
) -> (Vec<usize>, Vec<Vec<i32>>) {
    let mut indices = Vec::new();
    let mut frames = Vec::new();
    for part in bytes.chunks(chunk) {
        let (starts, from, to) = s.push_bytes(part, &|w: u32| w as u16 as i16 as i32);
        assert_eq!(starts.len(), to - from);
        for start in &starts {
            frames.push(s.samples()[*start..*start + s.frame_size()].to_vec());
        }
        indices.extend(from..to);
        if s.needs_compaction() && s.sample_start() <= s.samples().len() {
            s.compact();
        }
    }
    (indices, frames)
}

#[test]
fn pcm_frames_are_emitted_once_for_any_chunking() {
    let samples: Vec<i16> = (0..3000).map(|i| (i * 7 - 9000) as i16).collect();
    let bytes = i16_bytes(&samples);
    let frame = 256;
    let hop = 64;
    let count = (samples.len() - frame) / hop + 1;
    for chunk in [1usize, 3, 128, 1001, bytes.len()] {
        let mut s = PcmFrameStream::new(frame, hop, PcmFormat::I16LE).unwrap();
        let (indices, frames) = push_all(&mut s, &bytes, chunk);
        assert_eq!(indices, (0..count).collect::<Vec<usize>>());
        assert_eq!(frames.len(), count);
        for (k, f) in frames.iter().enumerate() {
            let expected: Vec<i32> = samples[k * hop..k * hop + frame].iter().map(|&x| x as i32).collect();
            assert_eq!(f, &expected);
        }
        assert_eq!(s.frames_taken(), count);
    }
}

#[test]
fn pcm_empty_push_emits_nothing() {
    let mut s = PcmFrameStream::new(4, 2, PcmFormat::I16LE).unwrap();
    let (starts, from, to) = s.push_bytes(&[1, 0, 2, 0, 3, 0, 4, 0, 5], &|w: u32| w as i32);
    assert_eq!((starts, from, to), (vec![0], 0, 1));
    let before = (s.samples().clone(), s.sample_start(), s.frames_taken());
    let (starts, from, to) = s.push_bytes(&[], &|w: u32| w as i32);
    assert!(starts.is_empty());
    assert_eq!((from, to), (1, 1));
    assert_eq!((s.samples().clone(), s.sample_start(), s.frames_taken()), before);
    // The carried odd byte completes with the next chunk.
    let (starts, from, to) = s.push_bytes(&[0, 6, 0], &|w: u32| w as i32);
    assert_eq!((starts, from, to), (vec![2], 1, 2));
    assert_eq!(s.samples()[2..6].to_vec(), vec![3, 4, 5, 6]);
}

#[test]
fn pcm_stream_rejects_zero_sizes_and_resets() {
    match PcmFrameStream::<i32>::new(0, 4, PcmFormat::F32LE) {
        Err(PyinError::InvalidConfig(msg)) => assert_eq!(msg, "frame_size and hop_size must be > 0"),
        Ok(_) => panic!("accepted zero frame size"),
    }
    let mut s = PcmFrameStream::new(2, 1, PcmFormat::F32LE).unwrap();
    let bytes: Vec<u8> = [1.0f32, -0.5, 0.25].iter().flat_map(|x| x.to_le_bytes()).collect();
    let (starts, from, to) = s.push_bytes(&bytes, &|w: u32| f32::from_bits(w).to_bits() as i32);
    assert_eq!((starts, from, to), (vec![0, 1], 0, 2));
    assert_eq!(s.samples()[1], (-0.5f32).to_bits() as i32);
    s.reset();
    assert_eq!((s.samples().len(), s.sample_start(), s.frames_taken()), (0, 0, 0));
    assert_eq!(s.format(), PcmFormat::F32LE);
}
