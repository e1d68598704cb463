use o324_daemon::common::color::{circular_distance, NextNumber, SharedColorGenerator, SpacedRandomGenerator};

#[test]
fn circular_distance_wraps_around() {
    assert_eq!(circular_distance(0, 360, 360), 1);
    assert_eq!(circular_distance(10, 350, 360), 21);
    assert_eq!(circular_distance(100, 130, 360), 30);
    assert_eq!(circular_distance(5, 5, 360), 0);
}

#[test]
fn push_rejects_out_of_range() {
    let mut g = SpacedRandomGenerator::new(3);
    assert!(g.push(3));
    assert!(!g.push(4));
}

#[test]
fn first_pick_is_random_then_weighted_over_lowest_layer() {
    let mut g = SpacedRandomGenerator::new(3);
    match g.next_number() {
        NextNumber::Picked(n) => assert!(n <= 3),
        NextNumber::Weighted { .. } => panic!("nothing was picked yet"),
    }
    match g.next_number() {
        NextNumber::Weighted { candidates, scores } => {
            assert_eq!(candidates.len(), 3);
            assert_eq!(scores.len(), 3);
            assert!(scores.iter().all(|s| *s >= 1));
        }
        NextNumber::Picked(_) => panic!("a number was picked before"),
    }
}

#[test]
fn lowest_layer_excludes_picked_numbers() {
    let mut g = SpacedRandomGenerator::new(4);
    g.push(0);
    g.push(2);
    assert_eq!(g.lowest_layer(), vec![1, 3, 4]);
    let scores = g.farness_scores(&vec![1, 3, 4]);
    assert_eq!(scores, vec![1, 1, 1]);
}

#[test]
fn farness_is_distance_to_nearest_pick() {
    let mut g = SpacedRandomGenerator::new(9);
    g.push(0);
    assert_eq!(g.farness_scores(&vec![5, 9, 3]), vec![5, 1, 3]);
}

#[test]
fn shared_generator_starts_from_existing_hues() {
    let mut g = SharedColorGenerator::new(&vec![0, 180]);
    let layer = g.0.lowest_layer();
    assert_eq!(layer.len(), 359);
    assert!(!layer.contains(&0));
    assert!(!layer.contains(&180));
    match g.0.next_number() {
        NextNumber::Weighted { candidates, .. } => assert_eq!(candidates.len(), 359),
        NextNumber::Picked(_) => panic!("hues were given"),
    }
}

#[test]
fn every_hue_is_used_once_before_any_twice() {
    let mut g = SpacedRandomGenerator::new(3);
    let mut seen = Vec::new();
    for _ in 0..4 {
        let n = match g.next_number() {
            NextNumber::Picked(n) => n,
            NextNumber::Weighted { candidates, scores } => {
                let best = (0..candidates.len()).max_by_key(|&i| scores[i]).unwrap();
                g.update_pick_count(candidates[best]);
                candidates[best]
            }
        };
        assert!(!seen.contains(&n));
        seen.push(n);
    }
    seen.sort();
    assert_eq!(seen, vec![0, 1, 2, 3]);
    assert_eq!(g.lowest_layer(), vec![0, 1, 2, 3]);
}

fn pick_one(g: &mut SpacedRandomGenerator, draw: usize) -> u32 {
    match g.next_number() {
        NextNumber::Picked(n) => n,
        NextNumber::Weighted { candidates, .. } => {
            let n = candidates[draw % candidates.len()];
            g.update_pick_count(n);
            n
        }
    }
}

#[test]
fn each_round_picks_every_number_once() {
    let mut g = SpacedRandomGenerator::new(4);
    for round in 0..3 {
        let mut seen = Vec::new();
        for k in 0..5 {
            let n = pick_one(&mut g, round * 7 + k * 3);
            assert!(!seen.contains(&n));
            seen.push(n);
        }
        seen.sort();
        assert_eq!(seen, vec![0, 1, 2, 3, 4]);
    }
}

#[test]
fn two_picks_over_two_numbers_differ() {
    let mut g = SpacedRandomGenerator::new(1);
    let a = pick_one(&mut g, 0);
    let b = pick_one(&mut g, 0);
    assert_ne!(a, b);
    assert!(a <= 1 && b <= 1);
}

#[test]
fn push_counts_in_range_numbers_only() {
    let mut g = SpacedRandomGenerator::new(3);
    assert!(!g.push(9));
    assert_eq!(g.lowest_layer(), vec![0, 1, 2, 3]);
    assert!(matches!(g.next_number(), NextNumber::Picked(_)));
    let mut g = SpacedRandomGenerator::new(3);
    assert!(g.push(2));
    assert_eq!(g.lowest_layer(), vec![0, 1, 3]);
    assert_eq!(g.farness_scores(&vec![0, 3]), vec![2, 1]);
    assert_eq!(g.max_number(), 3);
}
