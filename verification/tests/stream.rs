use pyin_rs::stream::FrameStream;
use pyin_rs::yin::{fft_len_for, next_power_of_two};
use pyin_rs::PyinError;

#[test]
fn zero_sizes_are_rejected() {
    for (f, h) in [(0usize, 1usize), (1, 0), (0, 0)] {
        match FrameStream::<u32>::new(f, h) {
            Err(PyinError::InvalidConfig(msg)) => {
                assert_eq!(msg, "frame_size and hop_size must be > 0")
            }
            Ok(_) => panic!("accepted zero size"),
        }
    }
    assert!(FrameStream::<u32>::new(4, 2).is_ok());
}

fn drain(s: &mut FrameStream<u32>) -> Vec<Vec<u32>> {
    let mut frames = Vec::new();
    while let Some(start) = s.next_frame() {
        frames.push(s.samples()[start..start + s.frame_size()].to_vec());
    }
    s.compact();
    frames
}

#[test]
fn frames_start_every_hop() {
    let mut s = FrameStream::new(4, 2).unwrap();
    s.append((0..5).collect());
    assert_eq!(drain(&mut s), vec![vec![0, 1, 2, 3]]);
    s.append((5..10).collect());
    assert_eq!(drain(&mut s), vec![vec![2, 3, 4, 5], vec![4, 5, 6, 7], vec![6, 7, 8, 9]]);
    assert_eq!(s.frames_taken(), 4);
    assert_eq!(s.take_unemitted(), (0, 4));
    assert_eq!(s.take_unemitted(), (4, 4));
}

#[test]
fn hop_longer_than_frame_skips_samples() {
    let mut s = FrameStream::new(2, 5).unwrap();
    s.append((0..13).collect());
    assert_eq!(drain(&mut s), vec![vec![0, 1], vec![5, 6], vec![10, 11]]);
    assert_eq!(s.sample_start(), 15);
}

#[test]
fn compaction_keeps_future_frames() {
    let mut chunked = FrameStream::new(1500, 1000).unwrap();
    let mut whole = FrameStream::new(1500, 1000).unwrap();
    let data: Vec<u32> = (0..30000).collect();
    let mut got = Vec::new();
    for chunk in data.chunks(777) {
        chunked.append(chunk.to_vec());
        got.extend(drain(&mut chunked));
    }
    whole.append(data.clone());
    let mut expected = Vec::new();
    while let Some(start) = whole.next_frame() {
        expected.push(whole.samples()[start..start + 1500].to_vec());
    }
    assert_eq!(got, expected);
    assert_eq!(got.len(), 29);
    assert_eq!(got[12][..3].to_vec(), vec![12000, 12001, 12002]);
    assert_eq!(got[28][1499], 29499);
    // the chunked stream dropped old samples along the way
    assert!(chunked.samples().len() < data.len());
}

#[test]
fn compaction_waits_for_threshold() {
    let mut s = FrameStream::new(4, 4).unwrap();
    s.append((0..8200).collect());
    while s.next_frame().is_some() {}
    assert_eq!(s.sample_start(), 8200);
    s.compact();
    assert_eq!(s.sample_start(), 0);
    assert!(s.samples().is_empty());
    let mut t = FrameStream::new(4, 4).unwrap();
    t.append((0..8192).collect());
    while t.next_frame().is_some() {}
    t.compact();
    assert_eq!(t.sample_start(), 8192);
    assert_eq!(t.samples().len(), 8192);
}

#[test]
fn reset_forgets_everything() {
    let mut s = FrameStream::new(2, 1).unwrap();
    s.append(vec![1, 2, 3]);
    while s.next_frame().is_some() {}
    s.reset();
    assert_eq!(s.frames_taken(), 0);
    assert_eq!(s.sample_start(), 0);
    assert!(s.samples().is_empty());
    assert_eq!(s.frame_size(), 2);
    assert_eq!(s.hop_size(), 1);
    assert_eq!(s.take_unemitted(), (0, 0));
}

#[test]
fn fft_lengths() {
    assert_eq!(next_power_of_two(0), 1);
    assert_eq!(next_power_of_two(1), 1);
    assert_eq!(next_power_of_two(5), 8);
    assert_eq!(next_power_of_two(64), 64);
    assert_eq!(fft_len_for(0), 2);
    assert_eq!(fft_len_for(1), 2);
    assert_eq!(fft_len_for(64), 128);
    assert_eq!(fft_len_for(2048), 4096);
    assert_eq!(fft_len_for(2049), 8192);
}

#[test]
fn take_frames_hands_out_every_complete_frame() {
    let mut s = FrameStream::new(4, 3).unwrap();
    assert!(s.frame_size() > 0 && s.hop_size() > 0);
    s.append((0..5).collect());
    assert_eq!(s.take_frames(), vec![0]);
    s.append((5..13).collect());
    // complete frames of 13 samples: (13 - 4) / 3 + 1 = 4
    assert_eq!(s.take_frames(), vec![3, 6, 9]);
    assert_eq!(s.frames_taken(), 4);
    assert!(s.take_frames().is_empty());
    assert_eq!(s.take_unemitted(), (0, 4));
}

#[test]
fn empty_push_changes_nothing() {
    let mut s = FrameStream::new(4, 2).unwrap();
    s.append((0..9).collect());
    let first = s.take_frames();
    s.compact();
    assert_eq!(s.take_unemitted(), (0, 3));
    assert_eq!(first, vec![0, 2, 4]);
    let before = (s.samples().clone(), s.sample_start(), s.frames_taken());
    s.append(Vec::new());
    assert!(s.take_frames().is_empty());
    s.compact();
    assert_eq!(s.take_unemitted(), (3, 3));
    assert_eq!((s.samples().clone(), s.sample_start(), s.frames_taken()), before);
}

#[test]
fn emitted_indices_tile_for_any_chunking() {
    let total: Vec<u32> = (0..5000).collect();
    for chunk in [1usize, 7, 333, 4097] {
        let mut s = FrameStream::new(64, 16).unwrap();
        let mut indices = Vec::new();
        for part in total.chunks(chunk) {
            s.append(part.to_vec());
            s.take_frames();
            s.compact();
            let (a, b) = s.take_unemitted();
            indices.extend(a..b);
        }
        let expected: Vec<usize> = (0..(5000 - 64) / 16 + 1).collect();
        assert_eq!(indices, expected);
    }
}
