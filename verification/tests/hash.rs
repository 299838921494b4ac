use ractor::factory::hash::{hash_u64_with_max, hash_with_max};
use std::hash::Hasher;

#[test]
fn test_bounded_hashing() {
    let test_values: [u128; 5] = [0, 10, 23, 128, u64::MAX as u128];

    let test_results = [0usize, 2, 1, 0, 0];

    for (test_value, test_result) in test_values.iter().zip(test_results) {
        let hashed = hash_with_max(*test_value, 3);
        assert_eq!(test_result, hashed);
    }
}

#[test]
fn hash_with_max_stays_in_range_and_is_stable() {
    for key in 0u128..200 {
        for max in 1usize..9 {
            let h = hash_with_max(key, max);
            assert!(h < max);
            assert_eq!(h, hash_with_max(key, max));
        }
    }
}

#[test]
fn hash_with_max_of_one_is_zero() {
    assert_eq!(0, hash_with_max(12345, 1));
    assert_eq!(0, hash_u64_with_max(12345, 1));
}

#[test]
fn u64_key_hash_matches_default_hasher() {
    for key in [0u64, 1, 10, 999, u64::MAX] {
        let mut h = std::collections::hash_map::DefaultHasher::new();
        h.write(&key.to_le_bytes());
        let expected = (h.finish() % 7) as usize;
        assert_eq!(expected, hash_u64_with_max(key, 7));
    }
}
