use coin_miner::digest::claim_hash;
use coin_miner::error::Error;
use coin_miner::miner::{Coin, Coordinator, Stats, Verdict};

const MINER: &str = "d41f33d21c5b2c49053c2b1cc2a8cc84";
const H1: &str = "00000000008c70b237c12e2c25d278cc";
const H2: &str = "0000000000aaaaaaaaaaaaaaaaaaaaaa";

#[test]
fn head_freshness_race_discards_silently() {
    let mut c = Coordinator::new(MINER.to_string(), 2, H1.to_string(), 8);
    let c1 = Coin { previous_coin: H1.to_string(), num_zeros: 8, blob: vec![1, 2, 3] };
    assert!(c.observe_head(H2.to_string()));
    assert!(matches!(c.vet(&c1).unwrap(), Verdict::Stale));
    assert_eq!(c.recent_bad_coin_count, 0);
    assert_eq!(c.lost_coin_count, 0);
}

#[test]
fn candidate_for_lower_difficulty_is_stale() {
    let c = Coordinator::new(MINER.to_string(), 2, H1.to_string(), 9);
    let coin = Coin { previous_coin: H1.to_string(), num_zeros: 8, blob: vec![1, 2, 3] };
    assert!(matches!(c.vet(&coin).unwrap(), Verdict::Stale));
}

#[test]
fn candidate_is_rehashed_before_claiming() {
    let blob = vec![9u8, 8, 7];
    let (d, h) = claim_hash(H1, &blob, MINER).unwrap();
    let lenient = Coordinator::new(MINER.to_string(), 2, H1.to_string(), 0);
    match lenient.vet(&Coin { previous_coin: H1.to_string(), num_zeros: 8, blob: blob.clone() }).unwrap() {
        Verdict::Claim(x) => assert_eq!(x, h),
        other => panic!("{:?}", other),
    }
    if d[0] != 0 {
        let strict = Coordinator::new(MINER.to_string(), 2, H1.to_string(), 2);
        match strict.vet(&Coin { previous_coin: H1.to_string(), num_zeros: 8, blob }).unwrap() {
            Verdict::BadHash(x) => assert_eq!(x, h),
            other => panic!("{:?}", other),
        }
    }
}

#[test]
fn bad_coins_close_the_intake_for_a_minute() {
    let mut c = Coordinator::new(MINER.to_string(), 2, H1.to_string(), 8);
    for i in 0..5u64 {
        assert!(c.intake_open(i * 1000));
        c.claim_failed(&Error::BadCoin("not authorized".to_string()), i * 1000);
    }
    assert_eq!(c.recent_bad_coin_count, 5);
    assert_eq!(c.lost_coin_count, 5);
    assert!(!c.intake_open(10_000));
    assert!(!c.intake_open(63_999));
    assert!(!c.intake_open(64_000));
    assert!(c.intake_open(64_001));
}

#[test]
fn other_failures_do_not_count_against_the_intake() {
    let mut c = Coordinator::new(MINER.to_string(), 2, H1.to_string(), 8);
    c.claim_failed(&Error::ServerBusy, 5);
    assert_eq!(c.recent_bad_coin_count, 0);
    assert_eq!(c.lost_coin_count, 1);
    c.claim_failed(&Error::AllRequestsFailed("x".to_string()), 6);
    assert_eq!(c.recent_bad_coin_count, 1);
    assert_eq!(c.bad_coin_start_ms, 6);
}

#[test]
fn success_advances_head_and_clears_bad_count() {
    let mut c = Coordinator::new(MINER.to_string(), 2, H1.to_string(), 8);
    c.claim_failed(&Error::BadCoin(String::new()), 1);
    c.claim_succeeded(H2.to_string());
    assert_eq!(c.coin_count, 1);
    assert_eq!(c.recent_bad_coin_count, 0);
    assert_eq!(c.last_coin, H2);
    assert!(!c.observe_head(H2.to_string()));
    assert!(c.observe_difficulty(9));
    assert!(!c.observe_difficulty(9));
    assert!(c.wants_cpu_miner(1));
    assert!(!c.wants_cpu_miner(2));
    c.record_stats(Stats { nhash: 10 });
    c.record_stats(Stats { nhash: 5 });
    assert_eq!(c.hash_count, 15);
    c.reset_stats();
    assert_eq!(c.hash_count, 0);
}

#[test]
fn claim_hash_is_md5_of_the_claim_message() {
    let blob = vec![0x58u8, 0x80, 0x9b];
    let (d, h) = claim_hash(H1, &blob, MINER).unwrap();
    let mut msg = b"CPEN 442 Coin2019".to_vec();
    msg.extend_from_slice(H1.as_bytes());
    msg.extend_from_slice(&blob);
    msg.extend_from_slice(MINER.as_bytes());
    let expected = openssl::hash::hash(openssl::hash::MessageDigest::md5(), &msg).unwrap();
    assert_eq!(d, expected.to_vec());
    assert_eq!(d.len(), 16);
    assert_eq!(h, hex::encode(&expected[..]));
    assert_eq!(coin_miner::digest::claim_message(H1, &blob, MINER), msg);
}
