use bloomfilter_rs::hashing::fold_bytes;
use bloomfilter_rs::BloomFilter;
use bloomfilter_rs::BloomFilterError;

#[test]
fn test_unknown_by_default() {
    let bf = BloomFilter::new(100, 4).unwrap();
    assert!(!bf.check(&"anything"));
    assert!(!bf.check(&0u64));
    assert!(!bf.check(&"coffee"));
}

#[test]
fn test_construction_succeeds_for_valid_params() {
    for &(m, k) in &[(1usize, 1usize), (1, 7), (3, 5), (1000, 9)] {
        let bf = BloomFilter::new(m, k).unwrap();
        assert_eq!(bf.capacity(), m);
        assert_eq!(bf.hash_count(), k);
        assert!(bf.is_empty());
    }
}

#[test]
fn test_error_variants() {
    assert!(matches!(
        BloomFilter::new(0, 1),
        Err(BloomFilterError::InvalidSize)
    ));
    assert!(matches!(
        BloomFilter::new(5, 0),
        Err(BloomFilterError::InvalidHashCount)
    ));
}

#[test]
fn test_more_probes_than_palette_entries() {
    // Five probes cycle a palette of three strategies.
    let mut bf = BloomFilter::new(500, 5).unwrap();
    bf.insert(&"cycled");
    assert!(bf.check(&"cycled"));
    assert!(!bf.check(&"absent"));
}

#[test]
fn test_insert_hashed_and_check_hashed() {
    let mut bf = BloomFilter::new(1000, 3).unwrap();
    assert!(!bf.check_hashed(12345));
    bf.insert_hashed(12345);
    assert!(bf.check_hashed(12345));
    assert_eq!(bf.len(), 1);
    // A membership report survives further insertions.
    bf.insert_hashed(99999);
    assert!(bf.check_hashed(12345));
    assert_eq!(bf.len(), 2);
}

#[test]
fn test_probe_indices() {
    let bf = BloomFilter::new(1000000, 3).unwrap();
    let base = 123456789u64;
    // Position 0 uses the fast strategy: the base hash itself, reduced
    // modulo the capacity.
    let i0 = bf.bloom_hash(base, 0);
    assert_eq!(i0, 456789);
    // The digest strategies transform the base hash: were either digest
    // the identity on its input bytes, its fold would reproduce the base
    // hash and collide with position 0.
    let i1 = bf.bloom_hash(base, 1);
    let i2 = bf.bloom_hash(base, 2);
    assert_ne!(i1, i0);
    assert_ne!(i2, i0);
    assert_ne!(i2, i1);
    // Probing is deterministic across calls.
    assert_eq!(i1, bf.bloom_hash(base, 1));
    assert_eq!(i2, bf.bloom_hash(base, 2));
}

#[test]
fn test_fold_bytes_values() {
    assert_eq!(fold_bytes(&vec![]), 0);
    assert_eq!(fold_bytes(&vec![1, 2]), 258);
    assert_eq!(fold_bytes(&vec![0xAB]), 0xAB);
    // Only the last eight bytes matter: the accumulator wraps.
    assert_eq!(fold_bytes(&vec![0xFF; 9]), u64::MAX);
    assert_eq!(
        fold_bytes(&vec![7, 1, 2, 3, 4, 5, 6, 7, 8]),
        0x0102030405060708
    );
}

#[test]
fn test_error_chance_monotone() {
    // The standard estimate (1 - e^(-k*n/m))^k is non-decreasing in the
    // insertion count.
    let mut bf = BloomFilter::new(100, 4).unwrap();
    let chance = |bf: &BloomFilter| -> f32 {
        let numerator = (bf.hash_count() as u64 * bf.len()) as f32;
        let denominator = bf.capacity() as f32;
        let e_exponent = (-1.0 * numerator) / denominator;
        (1.0 - e_exponent.exp()).powf(bf.hash_count() as f32)
    };
    bf.insert(&"first");
    let after_one = chance(&bf);
    for i in 0..9 {
        bf.insert(&format!("more_{}", i));
    }
    let after_ten = chance(&bf);
    assert!(after_ten >= after_one);
    assert!(after_one >= 0.0);
}

#[test]
fn test_capacity_stable_over_lifetime() {
    let mut bf = BloomFilter::new(321, 2).unwrap();
    assert_eq!(bf.capacity(), 321);
    bf.insert(&"a");
    assert_eq!(bf.capacity(), 321);
    bf.insert(&"a");
    assert_eq!(bf.capacity(), 321);
    bf.clear();
    assert_eq!(bf.capacity(), 321);
}

#[test]
fn test_duplicate_inserts_count() {
    let mut bf = BloomFilter::new(100, 4).unwrap();
    bf.insert(&"same");
    bf.insert(&"same");
    bf.insert(&"same");
    assert_eq!(bf.len(), 3);
    assert!(!bf.is_empty());
    assert!(bf.check(&"same"));
}
