use std::cmp::Ordering;

use mcp_semantic_router::ranking::{order_key, rank};
use ordered_float::OrderedFloat;

fn samples() -> Vec<f32> {
    vec![
        0.0,
        -0.0,
        1.0,
        -1.0,
        0.5,
        -0.5,
        0.999_999_9,
        f32::MIN_POSITIVE,
        -f32::MIN_POSITIVE,
        f32::from_bits(1),
        f32::from_bits(0x8000_0001),
        f32::MAX,
        f32::MIN,
        f32::INFINITY,
        f32::NEG_INFINITY,
        f32::NAN,
        -f32::NAN,
        f32::from_bits(0x7f80_0001),
        f32::from_bits(0xffff_ffff),
    ]
}

fn ranked(scores: &[f32]) -> Vec<usize> {
    let bits: Vec<u32> = scores.iter().map(|score| score.to_bits()).collect();
    rank(&bits)
}

#[test]
fn key_values() {
    assert_eq!(order_key(0.0f32.to_bits()), 0);
    assert_eq!(order_key((-0.0f32).to_bits()), 0);
    assert_eq!(order_key(1.0f32.to_bits()), 0x3f80_0000);
    assert_eq!(order_key((-1.0f32).to_bits()), -0x3f80_0000);
    assert_eq!(order_key(f32::INFINITY.to_bits()), 0x7f80_0000);
    assert_eq!(order_key(f32::NEG_INFINITY.to_bits()), -0x7f80_0000);
    assert_eq!(order_key(f32::NAN.to_bits()), 0x7f80_0001);
    assert_eq!(order_key(0xffff_ffff), 0x7f80_0001);
}

#[test]
fn keys_order_as_ordered_float_does() {
    for left in samples() {
        for right in samples() {
            let expected = OrderedFloat(left).cmp(&OrderedFloat(right));
            let actual = order_key(left.to_bits()).cmp(&order_key(right.to_bits()));
            assert_eq!(actual, expected, "{left} and {right}");
        }
    }
}

#[test]
fn highest_score_ranks_first() {
    assert_eq!(ranked(&[0.1, 0.9, 0.5]), vec![1, 2, 0]);
    assert_eq!(ranked(&[-0.5, 0.0, -0.9, 0.25]), vec![3, 1, 0, 2]);
}

#[test]
fn equal_scores_keep_their_order() {
    assert_eq!(ranked(&[0.5, 0.7, 0.5, 0.7, 0.5]), vec![1, 3, 0, 2, 4]);
    assert_eq!(ranked(&[-0.0, 0.0, -0.0]), vec![0, 1, 2]);
}

#[test]
fn not_a_number_ranks_before_everything() {
    assert_eq!(ranked(&[1.0, f32::NAN, f32::INFINITY, -f32::NAN]), vec![1, 3, 2, 0]);
}

#[test]
fn nothing_to_rank() {
    assert_eq!(ranked(&[]), Vec::<usize>::new());
    assert_eq!(ranked(&[0.3]), vec![0]);
}

#[test]
fn ranking_agrees_with_a_stable_sort() {
    let mut state: u64 = 42;
    for size in 0..60usize {
        let mut scores: Vec<f32> = Vec::new();
        for _ in 0..size {
            state = state.wrapping_mul(6364136223846793005).wrapping_add(1442695040888963407);
            scores.push(((state >> 33) % 17) as f32 / 8.0 - 1.0);
        }
        let mut expected: Vec<usize> = (0..size).collect();
        expected.sort_by(|a, b| OrderedFloat(scores[*b]).cmp(&OrderedFloat(scores[*a])));
        assert_eq!(ranked(&scores), expected);
    }
}

#[test]
fn ranking_lists_every_position_once() {
    let scores = samples();
    let mut positions = ranked(&scores);
    let order: Vec<Ordering> = positions
        .windows(2)
        .map(|pair| OrderedFloat(scores[pair[0]]).cmp(&OrderedFloat(scores[pair[1]])))
        .collect();
    assert!(order.iter().all(|step| *step != Ordering::Less));
    positions.sort();
    assert_eq!(positions, (0..scores.len()).collect::<Vec<usize>>());
}
