use waveview::history::History;
use waveview::reduce::{channel_deviation, Reducer, CHUNK_SIZE};
use waveview::sample::{convert_i16, convert_i16_buffer, SAMPLE_SCALE};
use waveview::session::handle_buffer;

#[test]
fn deviation_picks_larger_magnitude() {
    // min = -900_000, max = 500_000, |min| > |max| => the minimum wins.
    let samples: Vec<i32> = vec![200_000, -900_000, 500_000];
    assert_eq!(channel_deviation(&samples), -900_000);
}

#[test]
fn deviation_tie_resolves_to_max() {
    let samples: Vec<i32> = vec![-7, 7];
    assert_eq!(channel_deviation(&samples), 7);
}

#[test]
fn deviation_of_empty_channel_is_zero() {
    let samples: Vec<i32> = vec![];
    assert_eq!(channel_deviation(&samples), 0);
}

#[test]
fn aligned_input_yields_one_pair_per_chunk() {
    let mut reducer = Reducer::new(false);
    let input: Vec<i32> = vec![5; 3 * CHUNK_SIZE];
    let pairs = reducer.process(&input);
    assert_eq!(pairs.len(), 3);
    for p in pairs {
        assert_eq!(p, (5, 5));
    }
}

#[test]
fn pair_count_is_total_over_chunk_size() {
    let mut reducer = Reducer::new(false);
    let input: Vec<i32> = vec![1; 2 * CHUNK_SIZE + 100];
    let pairs = reducer.process(&input);
    assert_eq!(pairs.len(), 2);
    let more = reducer.process(&vec![1; CHUNK_SIZE - 100]);
    assert_eq!(more.len(), 1);
}

#[test]
fn carry_over_stays_below_chunk_size() {
    let mut reducer = Reducer::new(false);
    let sizes = [0usize, 1, 100, CHUNK_SIZE - 1, CHUNK_SIZE, CHUNK_SIZE + 1, 3 * CHUNK_SIZE + 7];
    let mut fed = 0usize;
    let mut got = 0usize;
    for n in sizes {
        let input: Vec<i32> = (0..n).map(|i| i as i32).collect();
        fed += n;
        got += reducer.process(&input).len();
        let leftover = fed % CHUNK_SIZE;
        assert!(leftover < CHUNK_SIZE);
        assert_eq!(got, fed / CHUNK_SIZE);
    }
}

#[test]
fn fragmented_and_contiguous_streams_agree() {
    let stream: Vec<i32> = (0..5000).map(|i| ((i * 37) % 1001) as i32 - 500).collect();

    let mut whole = Reducer::new(false);
    let pairs_whole = whole.process(&stream);

    let mut split = Reducer::new(false);
    let mut pairs_split = split.process(&stream[..1234].to_vec());
    pairs_split.extend(split.process(&stream[1234..].to_vec()));

    assert_eq!(pairs_whole, pairs_split);

    // Both reducers must also hold the same carry-over: feeding the same
    // tail afterwards yields identical pairs again.
    let tail: Vec<i32> = vec![123; CHUNK_SIZE];
    assert_eq!(whole.process(&tail), split.process(&tail));
}

#[test]
fn negate_left_flips_only_the_left_channel() {
    let mut reducer = Reducer::new(true);
    // Left channel (even offsets) all at full scale, right at half scale.
    let mut input: Vec<i32> = Vec::with_capacity(CHUNK_SIZE);
    for i in 0..CHUNK_SIZE {
        input.push(if i % 2 == 0 { SAMPLE_SCALE } else { SAMPLE_SCALE / 2 });
    }
    let pairs = reducer.process(&input);
    assert_eq!(pairs, vec![(-SAMPLE_SCALE, SAMPLE_SCALE / 2)]);
}

#[test]
fn negation_saturates_at_minimum() {
    let mut reducer = Reducer::new(true);
    let input: Vec<i32> = vec![i32::MIN; CHUNK_SIZE];
    let pairs = reducer.process(&input);
    assert_eq!(pairs, vec![(i32::MAX, i32::MIN)]);
}

#[test]
fn history_trims_oldest_down_to_target() {
    let mut history = History::new(4, 2);
    history.append_and_trim(&vec![(1, 1), (2, 2), (3, 3), (4, 4)]);
    assert_eq!(history.len(), 4);
    assert_eq!(history.snapshot(), vec![(1, 1), (2, 2), (3, 3), (4, 4)]);
    history.append_and_trim(&vec![(5, 5)]);
    assert_eq!(history.snapshot(), vec![(4, 4), (5, 5)]);
}

#[test]
fn history_never_exceeds_cap() {
    let mut history = History::new(2000, 1000);
    for round in 0..10 {
        let pairs: Vec<(i32, i32)> = (0..300).map(|i| (round * 300 + i, 0)).collect();
        history.append_and_trim(&pairs);
        assert!(history.len() <= 2000);
    }
    // 3000 appended in all; the trim at 2100 dropped down to 1000, after
    // which 900 more arrived.
    assert_eq!(history.len(), 1900);
    let snap = history.snapshot();
    // The newest entry survives, the oldest surviving one is 3000 - 1900.
    assert_eq!(snap[0], (1100, 0));
    assert_eq!(snap[1899], (2999, 0));
}

#[test]
fn end_to_end_full_scale_alternation() {
    let mut reducer = Reducer::new(false);
    let mut history = History::new(2000, 1000);
    let mut input: Vec<i32> = Vec::with_capacity(4096);
    for i in 0..4096 {
        input.push(if i % 2 == 0 { SAMPLE_SCALE } else { -SAMPLE_SCALE });
    }
    handle_buffer(&mut reducer, &mut history, &input);
    let snap = history.snapshot();
    assert_eq!(snap.len(), 2);
    assert_eq!(snap, vec![(SAMPLE_SCALE, -SAMPLE_SCALE), (SAMPLE_SCALE, -SAMPLE_SCALE)]);
}

#[test]
fn i16_samples_convert_exactly() {
    assert_eq!(convert_i16(0), 0);
    assert_eq!(convert_i16(16384), SAMPLE_SCALE / 2);
    assert_eq!(convert_i16(-32768), -SAMPLE_SCALE);
    assert_eq!(convert_i16(1), 512);
    let buf: Vec<i16> = vec![0, 1, -1, 32767, -32768];
    assert_eq!(
        convert_i16_buffer(&buf),
        vec![0, 512, -512, 32767 * 512, -SAMPLE_SCALE]
    );
}
