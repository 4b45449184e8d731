//! Choosing tokens by logits, and verifying candidates.
use super_inference::logits;
use super_inference::probes::jacobi::Search;

fn bits(values: &[f32]) -> Vec<u32> {
    values.iter().map(|value| value.to_bits()).collect()
}

#[test]
fn top_k_ids_returns_descending_finite_logits() {
    let values = bits(&[f32::NAN, 1.0, 4.0, 2.0, f32::INFINITY, 3.0]);
    assert_eq!(logits::top_k_ids(&values, 3), vec![2, 5, 3]);
}

#[test]
fn top_k_ids_takes_what_there_is() {
    assert_eq!(logits::top_k_ids(&bits(&[-1.0, f32::NEG_INFINITY, -0.5]), 9), vec![2, 0]);
    assert_eq!(logits::top_k_ids(&bits(&[1.0]), 0), Vec::<usize>::new());
    assert_eq!(logits::top_k_ids(&[], 4), Vec::<usize>::new());
}

#[test]
fn argmax_agrees_with_the_total_order() {
    let samples: [&[f32]; 7] = [
        &[],
        &[1.0],
        &[1.0, 3.0, 3.0, 2.0],
        &[-0.0, 0.0, -0.0],
        &[-5.0, -4.0, f32::NEG_INFINITY],
        &[1.0, f32::NAN, f32::INFINITY],
        &[-f32::NAN, f32::NEG_INFINITY],
    ];
    for sample in samples {
        let expected = sample
            .iter()
            .enumerate()
            .max_by(|(_, left), (_, right)| left.total_cmp(right))
            .map_or(0, |(index, _)| index);
        assert_eq!(logits::argmax(&bits(sample)), expected);
        assert_eq!(logits::argmax_token(&bits(sample)), expected as u32);
    }
}

#[test]
fn argmax_by_value_agrees_with_partial_comparison() {
    let samples: [&[f32]; 6] = [
        &[],
        &[2.0, 1.0],
        &[0.0, -0.0],
        &[1.0, f32::NAN, 0.5],
        &[f32::NAN, f32::NAN],
        &[3.0, 1.0, f32::INFINITY, 2.0],
    ];
    for sample in samples {
        let expected = sample
            .iter()
            .enumerate()
            .max_by(|(_, left), (_, right)| {
                left.partial_cmp(right).unwrap_or(std::cmp::Ordering::Equal)
            })
            .map(|(index, _)| index)
            .unwrap_or(0);
        assert_eq!(logits::argmax_by_value(&bits(sample)), expected);
    }
}

#[test]
fn ranking_by_value_finds_the_target() {
    let values = bits(&[0.5, -2.0, 7.0, 3.0]);
    let ranking = logits::ranked_by_value(&values, 3);
    assert_eq!(ranking, vec![2, 3, 0]);
    assert_eq!(logits::target_rank(&ranking, 3), Some(2));
    assert_eq!(logits::target_rank(&ranking, 1), None);
}

#[test]
fn candidates_are_accepted_up_to_the_first_mismatch() {
    let predicts = |token: usize| {
        let mut row = vec![0.0_f32; 8];
        row[token] = 1.0;
        bits(&row)
    };
    let logits_many = vec![predicts(5), predicts(2), predicts(3)];
    assert_eq!(logits::accepted_prefix(4, &[4, 5, 2], &logits_many), 3);
    assert_eq!(logits::accepted_prefix(4, &[4, 5, 1], &logits_many), 2);
    assert_eq!(logits::accepted_prefix(4, &[1, 5, 2], &logits_many), 0);
    assert_eq!(logits::accepted_prefix(4, &[4, 5, 2], &logits_many[..1]), 1);
    assert_eq!(logits::accepted_prefix(4, &[], &logits_many), 0);
}

#[test]
fn rounds_keep_the_best_candidates() {
    let predicts = |token: usize| {
        let mut row = vec![0.0_f32; 8];
        row[token] = 1.0;
        bits(&row)
    };
    let mut search = Search::new(4, 3);
    assert_eq!(search.candidates, vec![4, 4, 4]);
    let accepted = search.finish_round(&[predicts(5), predicts(2), predicts(3)]);
    assert_eq!(accepted, 1);
    assert_eq!(search.candidates, vec![4, 5, 2]);
    assert_eq!(search.best_accepted, 1);
    assert_eq!(search.best_candidates, vec![4, 4, 4]);
    let accepted = search.finish_round(&[predicts(5), predicts(2), predicts(1)]);
    assert_eq!(accepted, 3);
    assert_eq!(search.best_accepted, 3);
    assert_eq!(search.best_candidates, vec![4, 5, 2]);
    let accepted = search.finish_round(&[predicts(0), predicts(0), predicts(0)]);
    assert_eq!(accepted, 1);
    assert_eq!(search.best_accepted, 3);
    assert_eq!(search.candidates, vec![4, 0, 0]);
}
