use keyopt::distance::DistanceMatrix;
use keyopt::errors::OptError;
use keyopt::evaluate::{evaluate, simulate};
use keyopt::layout::Layout;

fn identity_layout() -> Layout {
    let letters: Vec<u8> = (b'a'..=b'z').collect();
    Layout::from_fixed_mapping(&letters).unwrap()
}

/// Places the given letters on the given positions and fills the rest of
/// the grid with the remaining letters in order.
fn layout_with(placed: &[(u8, usize)]) -> Layout {
    let mut letters: Vec<u8> = vec![0; 26];
    let mut used = [false; 26];
    for &(letter, pos) in placed {
        letters[pos] = letter;
        used[(letter - b'a') as usize] = true;
    }
    let mut next: u8 = b'a';
    for p in 0..26 {
        if letters[p] != 0 {
            continue;
        }
        while used[(next - b'a') as usize] {
            next += 1;
        }
        used[(next - b'a') as usize] = true;
        letters[p] = next;
    }
    Layout::from_fixed_mapping(&letters).unwrap()
}

#[test]
fn exact_fitness_of_a_two_key_corpus() {
    let dm = DistanceMatrix::build();
    let l = identity_layout();
    let corpus: Vec<u8> = b"ab\n".to_vec();
    let r = evaluate(&l, &corpus, &dm).unwrap();
    // Two keystrokes, each one straight step out of home: 2000 travel
    // units, no same-finger repeat, two same-hand repeats.
    assert_eq!(r.total_distance, 2000);
    // 50000 (distance) + 2000 (capped finger term) + 6000 (hand term)
    // + 15000 - 21600 (deviation) in milli-units.
    assert_eq!(r.fitness_milli, 51400);
}

#[test]
fn repeat_free_corpus_earns_capped_terms() {
    let dm = DistanceMatrix::build();
    let l = identity_layout();
    // a and f sit on different hands: no same-finger and no same-hand
    // repeat, so both repeat terms are capped at their maximum.
    let corpus: Vec<u8> = b"af\n".to_vec();
    let r = evaluate(&l, &corpus, &dm).unwrap();
    assert_eq!(r.total_distance, 2000);
    // 50000 (distance) + 2000 (capped finger term) + 12000 (capped hand
    // term) + 15000 - 19200 (deviation) in milli-units.
    assert_eq!(r.fitness_milli, 59800);
}

#[test]
fn evaluation_is_deterministic_across_calls() {
    let dm = DistanceMatrix::build();
    let l = layout_with(&[(b'q', 0), (b'w', 1)]);
    let corpus: Vec<u8> = b"the quick brown fox jumps over the lazy dog\npack my box\n"
        .iter()
        .copied()
        .filter(|&b| (b'a'..=b'z').contains(&b) || b == b'\n')
        .collect();
    let dm2 = DistanceMatrix::build();
    let r1 = evaluate(&l, &corpus, &dm).unwrap();
    let r2 = evaluate(&l, &corpus, &dm2).unwrap();
    assert_eq!(r1.fitness_milli, r2.fitness_milli);
    assert_eq!(r1.total_distance, r2.total_distance);
}

#[test]
fn same_finger_stacking_repeats_more() {
    let dm = DistanceMatrix::build();
    // a, b and c all under the left index finger.
    let stacked = layout_with(&[(b'a', 2), (b'b', 3), (b'c', 11)]);
    // a, b and c spread over three different fingers.
    let spread = layout_with(&[(b'a', 0), (b'b', 1), (b'c', 2)]);
    let corpus: Vec<u8> = b"abcabc\n".to_vec();
    let stats_stacked = simulate(&stacked, &corpus, &dm).unwrap();
    let stats_spread = simulate(&spread, &corpus, &dm).unwrap();
    assert_eq!(stats_stacked.repeat_fingers, 5);
    assert_eq!(stats_spread.repeat_fingers, 0);
    assert!(stats_stacked.repeat_fingers > stats_spread.repeat_fingers);
}

#[test]
fn empty_corpus_is_degenerate() {
    let dm = DistanceMatrix::build();
    let l = identity_layout();
    let corpus: Vec<u8> = Vec::new();
    assert_eq!(evaluate(&l, &corpus, &dm).err(), Some(OptError::EvaluationDegenerate));
}

#[test]
fn zero_travel_corpus_is_degenerate() {
    let dm = DistanceMatrix::build();
    let l = identity_layout();
    // The letter j sits on the home position of its finger: one keystroke,
    // no travel at all.
    let corpus: Vec<u8> = b"j".to_vec();
    assert_eq!(evaluate(&l, &corpus, &dm).err(), Some(OptError::EvaluationDegenerate));
}

#[test]
fn out_of_alphabet_byte_is_rejected() {
    let dm = DistanceMatrix::build();
    let l = identity_layout();
    let corpus: Vec<u8> = b"aZb".to_vec();
    assert_eq!(evaluate(&l, &corpus, &dm).err(), Some(OptError::InvalidCharacter));
}

#[test]
fn newline_resets_the_hands() {
    let dm = DistanceMatrix::build();
    let l = identity_layout();
    // With a reset between them, the two a strokes each travel out of
    // home; without it the second one stays put.
    let with_reset = simulate(&l, &b"a\na".to_vec(), &dm).unwrap();
    let without = simulate(&l, &b"aa".to_vec(), &dm).unwrap();
    assert_eq!(with_reset.total_distance, 2000);
    assert_eq!(without.total_distance, 1000);
    assert_eq!(with_reset.total_keys, 2);
    assert_eq!(without.total_keys, 2);
}
