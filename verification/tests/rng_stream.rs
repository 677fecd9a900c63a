use rand::{RngCore, SeedableRng};
use rough_compose::rng::{new_rng, RoughRng};

#[test]
fn stream_matches_pcg64_for_seed_42() {
    let mut ours = RoughRng::from_seed(42);
    let mut theirs = rand_pcg::Pcg64::seed_from_u64(42);
    for _ in 0..64 {
        assert_eq!(ours.next_u64(), theirs.next_u64());
    }
}

#[test]
fn stream_matches_pcg64_for_many_seeds() {
    let seeds: [u64; 6] = [0, 1, 7, 0xdead_beef, u64::MAX, 0x0123_4567_89ab_cdef];
    for seed in seeds {
        let mut ours = RoughRng::from_seed(seed);
        let mut theirs = rand_pcg::Pcg64::seed_from_u64(seed);
        for _ in 0..16 {
            assert_eq!(ours.next_u64(), theirs.next_u64());
        }
    }
}

#[test]
fn seeded_source_ignores_entropy() {
    let mut a = new_rng(Some(5), 100);
    let mut b = new_rng(Some(5), 200);
    assert_eq!(a, b);
    assert_eq!(a.next_u64(), b.next_u64());
}

#[test]
fn unseeded_source_follows_entropy() {
    let a = new_rng(None, 100);
    assert_eq!(a, RoughRng::from_seed(100));
    assert_ne!(a, new_rng(None, 101));
}

#[test]
fn symmetric_draw_stays_in_range() {
    let mut rng = RoughRng::from_seed(3);
    for amplitude in [0i64, 1, 2, 17, 4096] {
        for _ in 0..50 {
            let v = rng.symmetric(amplitude);
            assert!(-amplitude <= v && v <= amplitude);
        }
    }
}

#[test]
fn below_draw_stays_in_range() {
    let mut rng = RoughRng::from_seed(9);
    for _ in 0..100 {
        assert!(rng.below(201) < 201);
    }
    assert_eq!(rng.below(1), 0);
}
