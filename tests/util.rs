use coin_miner::codec::{digest_from_hex, is_digest_hex_str};
use coin_miner::gpuminer::num_zeros_to_word2_mask;
use coin_miner::util::{hash_starts_n_zeroes, hex_starts_n_zeroes, Timer};

#[test]
fn test_hash_word2_mask_ok() {
    assert_eq!(num_zeros_to_word2_mask(8), 0x0);
    assert_eq!(num_zeros_to_word2_mask(9), 0xF0);
    assert_eq!(num_zeros_to_word2_mask(10), 0xFF);
    assert_eq!(num_zeros_to_word2_mask(11), 0xF0FF);
    assert_eq!(num_zeros_to_word2_mask(15), 0xF0FF_FFFF);
}

#[test]
fn test_hash_starts_n_zeros_ok() {
    let hash = hex::decode("000000000002330fd125c706950f913b").unwrap();

    println!("Hash: {:?}", hash);

    assert!(hash_starts_n_zeroes(&hash, 11));
}

#[test]
fn hash_zero_nibbles_match_hex_zero_prefix() {
    let hash = hex::decode("000000000002330fd125c706950f913b").unwrap();
    let hex = hex::encode(&hash);
    for n in 0..=32u64 {
        assert_eq!(hash_starts_n_zeroes(&hash, n), hex_starts_n_zeroes(&hex, n), "n = {}", n);
    }
    assert!(!hash_starts_n_zeroes(&hash, 12));
    assert!(hash_starts_n_zeroes(&hash, 10));
}

#[test]
fn odd_count_checks_high_nibble() {
    let hash = hex::decode("0000000f00000000000000000000000f").unwrap();
    assert!(hash_starts_n_zeroes(&hash, 7));
    assert!(!hash_starts_n_zeroes(&hash, 8));
    let hash = hex::decode("000000f000000000000000000000000f").unwrap();
    assert!(hash_starts_n_zeroes(&hash, 6));
    assert!(!hash_starts_n_zeroes(&hash, 7));
}

#[test]
fn zero_difficulty_accepts_and_full_difficulty_rejects() {
    let hash = hex::decode("ffffffffffffffffffffffffffffffff").unwrap();
    assert!(hash_starts_n_zeroes(&hash, 0));
    assert!(!hash_starts_n_zeroes(&hash, 1));
    let almost = hex::decode("00000000000000000000000000000001").unwrap();
    assert!(!hash_starts_n_zeroes(&almost, 32));
    assert!(hash_starts_n_zeroes(&almost, 31));
    let zero = vec![0u8; 16];
    assert!(hash_starts_n_zeroes(&zero, 32));
    assert!(!hash_starts_n_zeroes(&zero, 33));
}

#[test]
fn hex_zero_prefix() {
    assert!(hex_starts_n_zeroes("00000000008c70b237c12e2c25d278cc", 10));
    assert!(!hex_starts_n_zeroes("00000000008c70b237c12e2c25d278cc", 11));
    assert!(hex_starts_n_zeroes("00000000008c70b237c12e2c25d278cc", 0));
    assert!(!hex_starts_n_zeroes("00000000008c70b237c12e2c25d278cc", 32));
}

#[test]
fn hex_round_trip_of_digest() {
    let d: Vec<u8> = (0u8..16).map(|i| i.wrapping_mul(37).wrapping_add(5)).collect();
    let h = hex::encode(&d);
    assert_eq!(h, "052a4f7499bee3082d52779cc1e60b30");
    assert!(is_digest_hex_str(&h));
    assert_eq!(digest_from_hex(&h), Some(d));
}

#[test]
fn digest_hex_rejects_uppercase_and_wrong_length() {
    assert!(!is_digest_hex_str("00000000008C70B237C12E2C25D278CC"));
    assert!(!is_digest_hex_str("00000000008c70b237c12e2c25d278c"));
    assert!(!is_digest_hex_str("00000000008c70b237c12e2c25d278cg"));
    assert_eq!(digest_from_hex("00000000008C70B237C12E2C25D278CC"), None);
}

#[test]
fn timer_edge_trigger_restarts_at_reading() {
    let mut t = Timer::new(100);
    assert!(!t.check_and_reset_at(50));
    assert!(!t.check_and_reset_at(100));
    assert!(t.check_and_reset_at(101));
    assert_eq!(t.start_ms, 101);
    assert!(!t.check_and_reset_at(201));
    assert!(t.check_and_reset_at(202));
    assert!(!t.check_and_reset_at(250));
}

#[test]
fn timer_strict_period_keeps_phase() {
    let mut t = Timer::new(100);
    assert!(t.check_and_reset_rt_at(350));
    assert_eq!(t.start_ms, 100);
    assert!(t.check_and_reset_rt_at(350));
    assert_eq!(t.start_ms, 200);
    assert!(t.check_and_reset_rt_at(350));
    assert_eq!(t.start_ms, 300);
    assert!(!t.check_and_reset_rt_at(350));
}

#[test]
fn timer_on_clock_does_not_fire_at_once() {
    let mut t = Timer::new(60_000);
    assert!(!t.check_and_reset());
    assert!(!t.check_and_reset_rt());
}
