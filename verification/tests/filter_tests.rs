use bloomfilter_rs::BloomFilter;

#[test]
fn create_correct_size() {
    let bf = BloomFilter::new(10, 1).unwrap();
    assert!(bf.capacity() == 10);
}

#[test]
fn insert_and_check_str() {
    let mut bf = BloomFilter::new(100, 4).unwrap();
    bf.insert(&"coffee");

    assert!(bf.check(&"coffee") == true);
    assert!(bf.check(&"pancakes") == false);
}

#[test]
fn insert_and_check_other() {
    let mut bf = BloomFilter::new(100, 4).unwrap();
    let the_answer = 42;
    let the_devil = 666;

    bf.insert(&the_answer);

    assert!(bf.check(&the_answer) == true);
    assert!(bf.check(&the_devil) == false);
}

#[test]
fn insert_and_increment_item_count() {
    let mut bf = BloomFilter::new(100, 4).unwrap();
    assert!(bf.len() == 0);

    bf.insert(&"coffee");

    assert!(bf.len() == 1);

    bf.insert(&"ham");

    assert!(bf.len() == 2);
}

#[test]
fn error_chance() {
    let mut bf = BloomFilter::new(100, 4).unwrap();

    bf.insert(&"coffee");

    let numerator = (bf.hash_count() as u64 * bf.len()) as f32;
    let denominator = bf.capacity() as f32;
    let e_exponent = (-1.0 * numerator) / denominator;
    let chance: f32 = (1.0 - e_exponent.exp()).powf(bf.hash_count() as f32);
    assert!(chance.floor() == 0.0);
}

#[test]
fn lib_test_clear() {
    let mut bf = BloomFilter::new(100, 4).unwrap();
    bf.insert(&"test");
    assert_eq!(bf.len(), 1);
    bf.clear();
    assert_eq!(bf.len(), 0);
    assert!(bf.is_empty());
}

#[test]
fn test_capacity() {
    let bf = BloomFilter::new(100, 4).unwrap();
    assert_eq!(bf.capacity(), 100);
}

#[test]
fn test_invalid_params() {
    assert!(BloomFilter::new(0, 1).is_err());
    assert!(BloomFilter::new(1, 0).is_err());
}
