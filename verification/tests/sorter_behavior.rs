//! Behavior of a single stepwise sorter, one variant at a time.

use sorting_visualizer::sorter::Algorithm;
use sorting_visualizer::sorter::StepwiseSorter;

fn advance_times(sorter: &mut StepwiseSorter, n: usize) {
    for _ in 0..n {
        sorter.advance();
    }
}

#[test]
fn insertion_first_pass_bubbles_max_toward_end() {
    let mut s = StepwiseSorter::new(Algorithm::Insertion, vec![8, 3, 7, 1, 6, 2, 5, 9, 4]);
    s.advance();
    assert_eq!(s.step, 1);
    assert_eq!(s.data, vec![3, 7, 1, 6, 2, 5, 8, 4, 9]);
}

#[test]
fn insertion_scenario_reaches_sorted_then_stops_changing() {
    let mut s = StepwiseSorter::new(Algorithm::Insertion, vec![8, 3, 7, 1, 6, 2, 5, 9, 4]);
    advance_times(&mut s, 8);
    assert_eq!(s.data, vec![1, 2, 3, 4, 5, 6, 7, 8, 9]);
    assert_eq!(s.step, 8);
    s.advance();
    assert_eq!(s.data, vec![1, 2, 3, 4, 5, 6, 7, 8, 9]);
    assert_eq!(s.step, 9);
    s.advance();
    assert_eq!(s.data, vec![1, 2, 3, 4, 5, 6, 7, 8, 9]);
    assert_eq!(s.step, 9);
}

#[test]
fn insertion_intermediate_passes_match_pass_definition() {
    let mut s = StepwiseSorter::new(Algorithm::Insertion, vec![8, 3, 7, 1, 6, 2, 5, 9, 4]);
    let expected: [&[u64]; 5] = [
        &[3, 7, 1, 6, 2, 5, 8, 4, 9],
        &[3, 1, 6, 2, 5, 7, 4, 8, 9],
        &[1, 3, 2, 5, 6, 4, 7, 8, 9],
        &[1, 2, 3, 5, 4, 6, 7, 8, 9],
        &[1, 2, 3, 4, 5, 6, 7, 8, 9],
    ];
    for (k, want) in expected.iter().enumerate() {
        s.advance();
        assert_eq!(s.step, k + 1);
        assert_eq!(s.data.as_slice(), *want);
    }
}

#[test]
fn bubble_first_call_performs_no_sweep() {
    let mut s = StepwiseSorter::new(Algorithm::Bubble, vec![8, 3, 7, 1, 6, 2, 5, 9, 4]);
    s.advance();
    assert_eq!(s.step, 1);
    assert_eq!(s.data, vec![8, 3, 7, 1, 6, 2, 5, 9, 4]);
}

#[test]
fn bubble_redo_passes_match_pass_definition() {
    let mut s = StepwiseSorter::new(Algorithm::Bubble, vec![8, 3, 7, 1, 6, 2, 5, 9, 4]);
    advance_times(&mut s, 2);
    assert_eq!(s.data, vec![3, 7, 1, 6, 2, 5, 8, 4, 9]);
    s.advance();
    assert_eq!(s.data, vec![1, 3, 2, 5, 6, 4, 7, 8, 9]);
    s.advance();
    assert_eq!(s.data, vec![1, 2, 3, 4, 5, 6, 7, 8, 9]);
    assert_eq!(s.step, 4);
    advance_times(&mut s, 5);
    assert_eq!(s.step, 9);
    assert_eq!(s.data, vec![1, 2, 3, 4, 5, 6, 7, 8, 9]);
}

#[test]
fn selection_first_call_places_nothing() {
    let mut s = StepwiseSorter::new(Algorithm::Selection, vec![8, 3, 7, 1, 6, 2, 5, 9, 4]);
    s.advance();
    assert_eq!(s.step, 1);
    assert_eq!(s.data, vec![8, 3, 7, 1, 6, 2, 5, 9, 4]);
}

#[test]
fn selection_passes_match_pass_definition() {
    let mut s = StepwiseSorter::new(Algorithm::Selection, vec![8, 3, 7, 1, 6, 2, 5, 9, 4]);
    advance_times(&mut s, 2);
    assert_eq!(s.data, vec![1, 3, 7, 8, 6, 2, 5, 9, 4]);
    advance_times(&mut s, 2);
    assert_eq!(s.data, vec![1, 2, 3, 8, 6, 7, 5, 9, 4]);
    advance_times(&mut s, 4);
    assert_eq!(s.data, vec![1, 2, 3, 4, 5, 6, 7, 9, 8]);
    s.advance();
    assert_eq!(s.step, 9);
    assert_eq!(s.data, vec![1, 2, 3, 4, 5, 6, 7, 8, 9]);
    s.advance();
    assert_eq!(s.step, 9);
    assert_eq!(s.data, vec![1, 2, 3, 4, 5, 6, 7, 8, 9]);
}

#[test]
fn empty_sequence_is_immediately_done() {
    let mut s = StepwiseSorter::new(Algorithm::Insertion, vec![]);
    s.advance();
    assert_eq!(s.step, 0);
    assert!(s.data.is_empty());
    let mut s = StepwiseSorter::new(Algorithm::Selection, vec![]);
    s.advance();
    assert_eq!(s.step, 0);
    assert!(s.data.is_empty());
}

#[test]
fn single_element_takes_one_idle_call() {
    let mut s = StepwiseSorter::new(Algorithm::Bubble, vec![5]);
    s.advance();
    assert_eq!(s.step, 1);
    assert_eq!(s.data, vec![5]);
    s.advance();
    assert_eq!(s.step, 1);
    assert_eq!(s.data, vec![5]);
}

#[test]
fn equal_elements_are_never_swapped_past_each_other() {
    let mut s = StepwiseSorter::new(Algorithm::Insertion, vec![2, 2, 1]);
    s.advance();
    assert_eq!(s.data, vec![2, 1, 2]);
    s.advance();
    assert_eq!(s.data, vec![1, 2, 2]);
    s.advance();
    assert_eq!(s.step, 3);
    assert_eq!(s.data, vec![1, 2, 2]);
}

#[test]
fn step_counter_rises_by_one_then_caps() {
    let mut s = StepwiseSorter::new(Algorithm::Selection, vec![8, 3, 7, 1, 6, 2, 5, 9, 4]);
    for k in 0..12usize {
        assert_eq!(s.step, k.min(9));
        s.advance();
    }
    assert_eq!(s.step, 9);
}

#[test]
fn every_call_preserves_the_multiset_of_values() {
    let mut want = vec![8u64, 3, 7, 1, 6, 2, 5, 9, 4];
    want.sort();
    for algorithm in [Algorithm::Insertion, Algorithm::Bubble, Algorithm::Selection] {
        let mut s = StepwiseSorter::new(algorithm, vec![8, 3, 7, 1, 6, 2, 5, 9, 4]);
        for _ in 0..11 {
            s.advance();
            let mut got = s.data.clone();
            got.sort();
            assert_eq!(got, want);
        }
    }
}

#[test]
fn insertion_stages_the_largest_values_at_the_tail() {
    let mut s = StepwiseSorter::new(Algorithm::Insertion, vec![8, 3, 7, 1, 6, 2, 5, 9, 4]);
    advance_times(&mut s, 3);
    assert_eq!(&s.data[6..], &[7, 8, 9]);
    let head_max = s.data[..6].iter().max().copied().unwrap();
    assert!(head_max <= 7);
}

#[test]
fn selection_stages_the_smallest_values_at_the_head() {
    let mut s = StepwiseSorter::new(Algorithm::Selection, vec![8, 3, 7, 1, 6, 2, 5, 9, 4]);
    advance_times(&mut s, 4);
    assert_eq!(&s.data[..3], &[1, 2, 3]);
    let tail_min = s.data[3..].iter().min().copied().unwrap();
    assert!(tail_min >= 3);
}
