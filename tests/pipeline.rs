use volume_compensator::channels::split_channels;
use volume_compensator::encoding::{decode_words, encode_words, join_lines};
use volume_compensator::slices::{SliceError, SliceTable, KEYS};
use volume_compensator::smoothing::{smoothing_window, smoothing_windows};

#[test]
fn split_two_channels() {
    let samples: Vec<f32> = vec![1.0, 2.0, 3.0, 4.0, 5.0, 6.0];
    let split = split_channels(&samples, 2);
    assert_eq!(split, vec![vec![1.0, 3.0, 5.0], vec![2.0, 4.0, 6.0]]);
}

#[test]
fn split_drops_incomplete_frame() {
    let samples: Vec<i32> = vec![1, 2, 3, 4, 5, 6, 7];
    let split = split_channels(&samples, 3);
    assert_eq!(split, vec![vec![1, 4], vec![2, 5], vec![3, 6]]);
}

#[test]
fn split_single_channel_and_empty() {
    let samples: Vec<i32> = vec![9, 8, 7];
    assert_eq!(split_channels(&samples, 1), vec![vec![9, 8, 7]]);
    let empty: Vec<i32> = Vec::new();
    assert_eq!(split_channels(&empty, 2), vec![Vec::<i32>::new(), Vec::new()]);
}

#[test]
fn slice_geometry_even_split() {
    let table = SliceTable::from_times(0, 8_800_000, 44100).unwrap();
    assert_eq!(table.length, 4410);
    assert_eq!(table.offsets.len(), KEYS);
    for i in 0..KEYS {
        assert_eq!(table.offsets[i], i * 4410);
    }
}

#[test]
fn slice_geometry_rounds_offsets_and_floors_length() {
    // one second over 88 keys at 44100 Hz: 501.136... samples per slice
    let table = SliceTable::from_times(0, 1_000_000, 44100).unwrap();
    assert_eq!(table.length, 501);
    assert_eq!(table.offsets[1], 501);
    assert_eq!(table.offsets[3], 1503);
    assert_eq!(table.offsets[87], 43599);
}

#[test]
fn slice_geometry_halves_round_up() {
    // half a sample per slice: offsets i / 2 rounded, length zero
    let table = SliceTable::from_times(0, 44_000_000, 1).unwrap();
    assert_eq!(table.length, 0);
    assert_eq!(table.offsets[0], 0);
    assert_eq!(table.offsets[1], 1);
    assert_eq!(table.offsets[2], 1);
    assert_eq!(table.offsets[3], 2);
}

#[test]
fn slice_geometry_with_start_offset() {
    let table = SliceTable::from_times(2_000_000, 10_800_000, 44100).unwrap();
    assert_eq!(table.length, 4410);
    assert_eq!(table.offsets[0], 88200);
    assert_eq!(table.offsets[10], 88200 + 44100);
}

#[test]
fn slice_geometry_end_before_start() {
    assert_eq!(SliceTable::from_times(2, 1, 44100).err(), Some(SliceError::EndBeforeStart));
}

#[test]
fn slice_geometry_too_long() {
    let r = SliceTable::from_times(u64::MAX - 10, u64::MAX, u32::MAX);
    assert_eq!(r.err(), Some(SliceError::TooLong));
}

#[test]
fn windows_cut_each_key_from_each_channel() {
    let channels: Vec<Vec<u32>> = vec![(0..10).collect(), (10..20).collect()];
    let table = SliceTable { offsets: vec![0, 3, 8], length: 2 };
    let w = table.windows(&channels).unwrap();
    assert_eq!(w.len(), 3);
    assert_eq!(w[0], vec![vec![0, 1], vec![10, 11]]);
    assert_eq!(w[1], vec![vec![3, 4], vec![13, 14]]);
    assert_eq!(w[2], vec![vec![8, 9], vec![18, 19]]);
}

#[test]
fn windows_out_of_range() {
    let channels: Vec<Vec<u32>> = vec![(0..10).collect(), (0..9).collect()];
    let table = SliceTable { offsets: vec![0, 8], length: 2 };
    assert_eq!(table.windows(&channels).err(), Some(SliceError::OutOfRange));
}

#[test]
fn windows_of_full_table() {
    let samples: Vec<f32> = (0..8820).map(|k| k as f32).collect();
    let split = split_channels(&samples, 2);
    let table = SliceTable::from_times(0, 8_800_000, 441).unwrap();
    assert_eq!(table.length, 44);
    let w = table.windows(&split).unwrap();
    assert_eq!(w.len(), KEYS);
    // slice 87 starts at 87 * 44.1 = 3836.7, rounded to 3837
    assert_eq!(table.offsets[87], 3837);
    assert_eq!(w[87][1][0], samples[3837 * 2 + 1]);
    assert_eq!(w[87][1].len(), 44);
}

#[test]
fn smoothing_windows_clip_at_edges() {
    assert_eq!(smoothing_windows(1, 4), vec![(0, 2), (0, 3), (1, 4), (2, 4)]);
    let loudness: Vec<f32> = vec![1.0, 2.0, 3.0, 4.0];
    let means: Vec<f32> = smoothing_windows(1, 4)
        .iter()
        .map(|&(s, e)| loudness[s..e].iter().sum::<f32>() / (e - s) as f32)
        .collect();
    assert_eq!(means[0], 1.5);
    assert_eq!(means[1], 2.0);
    assert_eq!(means[3], 3.5);
}

#[test]
fn smoothing_window_zero_and_wide_span() {
    assert_eq!(smoothing_window(5, 0, 88), (5, 6));
    assert_eq!(smoothing_window(0, 255, 88), (0, 88));
    assert_eq!(smoothing_window(87, 3, 88), (84, 88));
    assert_eq!(smoothing_windows(2, 0), Vec::<(usize, usize)>::new());
}

#[test]
fn encode_words_little_endian() {
    let bytes = encode_words(&vec![0x0403_0201, 0xdead_beef]);
    assert_eq!(bytes, vec![1, 2, 3, 4, 0xef, 0xbe, 0xad, 0xde]);
    let one = encode_words(&vec![1.0f32.to_bits()]);
    assert_eq!(one, 1.0f32.to_le_bytes().to_vec());
}

#[test]
fn binary_round_trip_of_curve() {
    let curve: Vec<f32> = (0..88).map(|k| (k as f32 - 40.0) * 0.137).collect();
    let bits: Vec<u32> = curve.iter().map(|x| x.to_bits()).collect();
    let bytes = encode_words(&bits);
    assert_eq!(bytes.len(), 352);
    let back: Vec<f32> = decode_words(&bytes).unwrap().into_iter().map(f32::from_bits).collect();
    for k in 0..88 {
        assert_eq!(back[k].to_bits(), curve[k].to_bits());
    }
}

#[test]
fn decode_rejects_partial_word() {
    assert_eq!(decode_words(&vec![1, 2, 3, 4, 5]), None);
    assert_eq!(decode_words(&vec![1, 0, 0, 0]), Some(vec![1]));
    assert_eq!(decode_words(&Vec::new()), Some(Vec::new()));
}

#[test]
fn join_lines_has_no_trailing_newline() {
    let lines: Vec<Vec<u8>> = [0.5f32, -1.25, 3.0]
        .iter()
        .map(|x| format!("{:.9}", x).into_bytes())
        .collect();
    let text = join_lines(&lines);
    assert_eq!(text, b"0.500000000\n-1.250000000\n3.000000000".to_vec());
}

#[test]
fn join_lines_empty_and_single() {
    assert_eq!(join_lines(&Vec::new()), Vec::<u8>::new());
    assert_eq!(join_lines(&vec![b"x".to_vec()]), b"x".to_vec());
    assert_eq!(join_lines(&vec![Vec::new(), Vec::new()]), b"\n".to_vec());
}

#[test]
fn bytes_round_trip_through_words() {
    let bytes: Vec<u8> = (0..16).map(|k| (k * 37 + 5) as u8).collect();
    let words = decode_words(&bytes).unwrap();
    assert_eq!(words[0], u32::from_le_bytes([bytes[0], bytes[1], bytes[2], bytes[3]]));
    assert_eq!(encode_words(&words), bytes);
}

#[test]
fn whole_sample_offsets_step_by_length() {
    // starting at 1 s, 88 s long at 8 kHz: one second of samples per key
    let exact = SliceTable::from_times(1_000_000, 1_000_000 + 88_000_000, 8000).unwrap();
    for i in 0..KEYS {
        assert_eq!(exact.offsets[i], 8000 + i * 8000);
    }
    assert_eq!(exact.length, 8000);
}
