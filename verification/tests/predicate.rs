use crypto::digest::Digest;
use crypto::sha2::Sha256;
use pow_search::config::{Config, BASE, DIFFICULTY, THREADS};
use pow_search::predicate::{starts_with, transform, verify};

const SHA256_OF_0: &str = "5feceb66ffc86f38d952786c6d696c79c2dbc239dd4e91b46729d73a27fb57e9";
const SHA256_OF_42: &str = "73475cb40a568e8da8a045ced110137e159f890ac4da883b6b17dc651b3a8049";
const SHA256_OF_1680: &str = "0ebe0fb634f8e4aca93dcdea090d01120e73df4c7da22888c595b593da608c78";

fn recomputed(number: usize, base: usize) -> String {
    let mut hasher = Sha256::new();
    hasher.input_str(&(number as u128 * base as u128).to_string());
    hasher.result_str()
}

#[test]
fn default_configuration() {
    let config = Config::default();
    assert_eq!(config.base, 42);
    assert_eq!(config.threads, 8);
    assert_eq!(config.difficulty, "00000");
    assert_eq!(BASE, 42);
    assert_eq!(THREADS, 8);
    assert_eq!(DIFFICULTY, "00000");
}

#[test]
fn new_configuration_keeps_its_arguments() {
    let config = Config::new(7, 3, "0a");
    assert_eq!(config.base, 7);
    assert_eq!(config.threads, 3);
    assert_eq!(config.difficulty, "0a");
}

#[test]
fn transform_is_the_exact_product() {
    assert_eq!(transform(0, 42), 0);
    assert_eq!(transform(40, 42), 1680);
    assert_eq!(transform(usize::MAX, 0), 0);
    assert_eq!(transform(usize::MAX, usize::MAX), usize::MAX as u128 * usize::MAX as u128);
}

#[test]
fn starts_with_compares_exactly() {
    assert!(starts_with("0ebe0f", "0"));
    assert!(starts_with("0ebe0f", "0ebe"));
    assert!(starts_with("0ebe0f", "0ebe0f"));
    assert!(starts_with("0ebe0f", ""));
    assert!(starts_with("", ""));
    assert!(!starts_with("0ebe0f", "0ebe0f0"));
    assert!(!starts_with("0ebe0f", "0EBE"));
    assert!(!starts_with("0ebe0f", "ebe"));
    assert!(!starts_with("0ebe0f", "0ebf"));
    assert!(!starts_with("", "0"));
}

#[test]
fn verify_zero_hashes_the_text_zero() {
    let config = Config::new(42, 4, "5");
    let solution = verify(0, &config).unwrap();
    assert_eq!(solution.number, 0);
    assert_eq!(solution.hash, SHA256_OF_0);
}

#[test]
fn zero_gives_the_same_digest_under_every_multiplier() {
    let a = verify(0, &Config::new(42, 4, "")).unwrap();
    let b = verify(0, &Config::new(7, 4, "")).unwrap();
    let c = verify(0, &Config::new(usize::MAX, 4, "")).unwrap();
    assert_eq!(a.hash, SHA256_OF_0);
    assert_eq!(b.hash, SHA256_OF_0);
    assert_eq!(c.hash, SHA256_OF_0);
}

#[test]
fn the_product_is_hashed_not_the_candidate() {
    let one = verify(1, &Config::new(42, 4, "")).unwrap();
    assert_eq!(one.number, 1);
    assert_eq!(one.hash, SHA256_OF_42);
    let forty = verify(40, &Config::new(42, 4, "0")).unwrap();
    assert_eq!(forty.number, 40);
    assert_eq!(forty.hash, SHA256_OF_1680);
    let forty_two = verify(42, &Config::new(1, 4, "")).unwrap();
    assert_eq!(forty_two.number, 42);
    assert_eq!(forty_two.hash, SHA256_OF_42);
}

#[test]
fn a_product_beyond_the_word_is_hashed_whole() {
    if usize::MAX as u128 == u64::MAX as u128 {
        let solution = verify(usize::MAX, &Config::new(42, 4, "94d9")).unwrap();
        assert_eq!(solution.number, usize::MAX);
        assert_eq!(
            solution.hash,
            "94d9f24d0e4fec615650b97aeb2f7db711a23e8214cd29e34d5fcdef16f4a889"
        );
    }
}

#[test]
fn verify_rejects_a_digest_without_the_prefix() {
    assert!(verify(0, &Config::new(42, 4, "0")).is_none());
    assert!(verify(1, &Config::new(42, 4, "0")).is_none());
    assert!(verify(0, &Config::new(42, 4, "5fed")).is_none());
    assert!(verify(0, &Config::default()).is_none());
}

#[test]
fn verify_matches_case_exactly() {
    assert!(verify(0, &Config::new(42, 4, "5fec")).is_some());
    assert!(verify(0, &Config::new(42, 4, "5FEC")).is_none());
    assert!(verify(0, &Config::new(42, 4, "5Fec")).is_none());
}

#[test]
fn verify_matches_the_whole_prefix() {
    assert!(verify(0, &Config::new(42, 4, SHA256_OF_0)).is_some());
    let mut longer = String::from(SHA256_OF_0);
    longer.push('0');
    assert!(verify(0, &Config::new(42, 4, &longer)).is_none());
    assert!(verify(0, &Config::new(42, 4, "5feceb67")).is_none());
    assert!(verify(0, &Config::new(42, 4, "feceb66")).is_none());
}

#[test]
fn verify_is_repeatable() {
    let config = Config::new(42, 4, "0");
    let mut number: usize = 0;
    while number < 100 {
        let first = verify(number, &config);
        let second = verify(number, &config);
        assert_eq!(first.is_some(), second.is_some());
        if let (Some(a), Some(b)) = (first, second) {
            assert_eq!(a.number, b.number);
            assert_eq!(a.hash, b.hash);
        }
        number += 1;
    }
}

#[test]
fn verify_agrees_with_an_independent_digest() {
    let config = Config::new(42, 4, "0");
    let mut passed: Vec<usize> = Vec::new();
    let mut number: usize = 0;
    while number < 64 {
        let digest = recomputed(number, 42);
        match verify(number, &config) {
            Some(solution) => {
                assert_eq!(solution.number, number);
                assert_eq!(solution.hash, digest);
                assert!(digest.starts_with("0"));
                passed.push(number);
            }
            None => assert!(!digest.starts_with("0")),
        }
        number += 1;
    }
    assert_eq!(passed, vec![40, 46]);
}
