use ttui::noise::scatter_bucket;

#[test]
fn the_same_seed_gives_the_same_bucket() {
    for seed in [0u32, 1, 7, 12345, u32::MAX] {
        assert_eq!(scatter_bucket(seed), scatter_bucket(seed));
    }
}

#[test]
fn buckets_stay_below_ten_thousand() {
    for seed in 0u32..2000 {
        assert!(scatter_bucket(seed) < 10_000);
    }
}

#[test]
fn bucket_matches_the_hash_written_out() {
    for seed in [0u32, 1, 2, 99, 40_000, 3_000_000_000, u32::MAX] {
        let h = seed.wrapping_mul(2_654_435_761) ^ seed.wrapping_mul(40_503).rotate_left(13);
        assert_eq!(scatter_bucket(seed), h % 10_000);
    }
}

#[test]
fn distinct_small_seeds_mostly_land_in_distinct_buckets() {
    let mut seen = std::collections::HashSet::new();
    for seed in 0u32..100 {
        seen.insert(scatter_bucket(seed));
    }
    assert!(seen.len() > 90);
}

#[test]
fn seed_zero_lands_in_bucket_zero() {
    assert_eq!(scatter_bucket(0), 0);
}
