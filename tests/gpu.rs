use coin_miner::gpuminer::{
    message_for_id, num_zeros_to_word2_mask, GpuSearch, WorkGroupTuner, NO_HIT, OCL_MESSAGE_LEN,
};
use coin_miner::util::hash_starts_n_zeroes;

fn word(m: &[u8], k: usize) -> u32 {
    u32::from_le_bytes([m[4 * k], m[4 * k + 1], m[4 * k + 2], m[4 * k + 3]])
}

fn set_word(m: &mut [u8], k: usize, v: u32) {
    m[4 * k..4 * k + 4].copy_from_slice(&v.to_le_bytes());
}

#[test]
fn gpu_reconstruction_matches_kernel_transformation() {
    let base: Vec<u8> = (0..64u32).map(|i| (i * 7 + 3) as u8).collect();
    let id: u32 = 0x12345678;
    let idx: u32 = 0x10;
    let idx2: u32 = 0x22;
    let params_in: [u32; 4] = [0x01, 0x02, 0x03, 0x04];
    let r = &params_in[1..4];

    // What the kernel hashes, word by word.
    let mut kernel = base.clone();
    for k in 0..16usize {
        let mut v = word(&base, k);
        if k == 13 + (id.wrapping_add(r[0]) % 32) as usize {
            v = v.wrapping_add(id.wrapping_add(idx.wrapping_mul(4)));
        }
        if k == 13 + ((id.wrapping_add(r[1]) as usize) + 8) % 32 {
            v ^= (id << 16) | id;
        }
        if k == 13 + 32 {
            v = v.wrapping_add((id << 16).wrapping_add(idx).wrapping_sub(r[2]));
        }
        if k == 49 {
            v = v.wrapping_add(idx2 >> 2).wrapping_add(idx2 << 24).wrapping_add(idx << 12);
        }
        set_word(&mut kernel, k, v);
    }

    let blob = message_for_id(&base, 0, 64, id, idx, idx2, r);
    assert_eq!(blob, kernel);
    let kernel_hash = openssl::hash::hash(openssl::hash::MessageDigest::md5(), &kernel).unwrap();
    let host_hash = openssl::hash::hash(openssl::hash::MessageDigest::md5(), &blob).unwrap();
    assert_eq!(&kernel_hash[..], &host_hash[..]);
    // The word at index 13 + (id + 2) mod 32 = 13 + 26 = 39 lies past the
    // 16 words of this message, so only the xor on word 13 + (id + 3 + 8)
    // mod 32 = 13 + 3 = 16 would apply, which is past the end too.
    assert_eq!(blob, base);
}

#[test]
fn gpu_reconstruction_changes_words_in_region() {
    let base = vec![0u8; 256];
    let params_in: [u32; 4] = [0, 0, 0, 0];
    let blob = message_for_id(&base, 49, 224, 1, 2, 4, &params_in[1..4]);
    assert_eq!(blob.len(), 224 - 49);
    let mut full = base.clone();
    full[49..224].copy_from_slice(&blob);
    // word 13 + 1 = 14 gets id + 4 * idx = 9
    assert_eq!(word(&full, 14), 9);
    // word 13 + (1 + 8) = 22 gets xor (1 << 16) | 1
    assert_eq!(word(&full, 22), 0x0001_0001);
    // word 45 gets (1 << 16) + 2 - 0
    assert_eq!(word(&full, 45), 0x0001_0002);
    // word 49 gets (4 >> 2) + (4 << 24) + (2 << 12)
    assert_eq!(word(&full, 49), 1 + 0x0400_0000 + 0x2000);
    // the word that straddles the region's start is not touched
    assert_eq!(&full[48..52], &[0, 0, 0, 0]);
}

#[test]
fn tuner_doubles_then_halves_on_regression() {
    let mut t = WorkGroupTuner::new(500);
    for _ in 0..64 {
        t.record_time(10);
        t.record_dispatch(1000, 0);
    }
    assert_eq!(t.multiplier, 2);
    assert!(!t.found_peak);
    let rate = t.last_hash_rate;
    assert_eq!(rate, 1000 * (1 + 64 * 1000) / (1 + 640));
    for _ in 0..64 {
        t.record_time(20);
        t.record_dispatch(1000, 5);
    }
    assert_eq!(t.multiplier, 1);
    assert!(t.found_peak);
    assert_eq!(t.peak_time_ms, 5);
    for _ in 0..64 {
        t.record_time(20);
        t.record_dispatch(1000, 600_006);
    }
    assert_eq!(t.multiplier, 2);
    assert!(!t.found_peak);
}

#[test]
fn tuner_halves_on_overlong_loop() {
    let mut t = WorkGroupTuner::new(5);
    for _ in 0..64 {
        t.record_time(10);
        t.record_dispatch(1000, 7);
    }
    assert_eq!(t.multiplier, 1);
    assert!(t.found_peak);
}

#[test]
fn gpu_search_lays_out_message_and_publishes_hits() {
    let head = "00000000008c70b237c12e2c25d278cc".to_string();
    let id = "d41f33d21c5b2c49053c2b1cc2a8cc84";
    let mut g = GpuSearch::new(head.clone(), id, 9, 500, 0).unwrap();
    assert_eq!(g.message.len(), OCL_MESSAGE_LEN);
    assert_eq!(&g.message[0..17], b"CPEN 442 Coin2019");
    assert_eq!(&g.message[17..49], head.as_bytes());
    assert_eq!(&g.message[224..256], id.as_bytes());
    assert_eq!(g.word2_mask, 0xF0);
    let fill = vec![7u8; 224 - 49 - 48];
    g.reseed(5, &[1u8; 16], &[2u8; 16], &fill);
    assert_eq!(&g.message[49..65], &5u128.to_le_bytes());
    assert_eq!(&g.message[65..81], &[1u8; 16]);
    let params_in = g.params_in(1, 2, 3);
    assert_eq!(params_in, vec![0xF0, 1, 2, 3]);

    let miss = g.after_dispatch(10, None, None, &[NO_HIT, NO_HIT, NO_HIT, NO_HIT], &params_in, 256, 0);
    assert!(!miss.discarded);
    assert!(miss.candidate.is_none());
    assert_eq!(g.take_stat_hashes(), 64 * 256 * 256);

    let hit = g.after_dispatch(10, None, Some(10), &[3, 4, 5, NO_HIT], &params_in, 256, 0);
    let coin = hit.candidate.unwrap();
    assert_eq!(coin.previous_coin, head);
    assert_eq!(coin.num_zeros, 10);
    assert_eq!(coin.blob, message_for_id(&g.message, 49, 224, 3, 4, 5, &[1, 2, 3]));
    assert_eq!(g.word2_mask, 0xFF);

    let new_head = "0000000000aaaaaaaaaaaaaaaaaaaaaa".to_string();
    let stale = g.after_dispatch(10, Some(new_head.clone()), None, &[3, 4, 5, NO_HIT], &params_in, 256, 0);
    assert!(stale.discarded);
    assert!(stale.candidate.is_none());
    assert_eq!(&g.message[17..49], new_head.as_bytes());
}

#[test]
fn gpu_search_throttles_a_share_of_loops() {
    let head = "00000000008c70b237c12e2c25d278cc".to_string();
    let id = "d41f33d21c5b2c49053c2b1cc2a8cc84";
    let mut g = GpuSearch::new(head, id, 8, 500, 50).unwrap();
    let params_in = g.params_in(0, 0, 0);
    let step = g.after_dispatch(100, None, None, &[NO_HIT; 4], &params_in, 1, 0);
    assert_eq!(g.loop_ms, 50);
    assert_eq!(step.sleep_ms, 100);
}

#[test]
fn gpu_search_refuses_what_the_kernel_cannot_express() {
    let head = "00000000008c70b237c12e2c25d278cc".to_string();
    assert!(GpuSearch::new(head.clone(), "d41f33d21c5b2c49053c2b1cc2a8cc84", 7, 500, 0).is_none());
    assert!(GpuSearch::new(head.clone(), "d41f33d21c5b2c49053c2b1cc2a8cc84", 16, 500, 0).is_none());
    assert!(GpuSearch::new(head, "abc", 8, 500, 0).is_none());
}

#[test]
fn second_word_mask_matches_zero_nibbles() {
    let d = hex::decode("000000000f123456789abcdef0123456").unwrap();
    let w1 = u32::from_le_bytes([d[4], d[5], d[6], d[7]]);
    for nz in 8..16u64 {
        let passes = w1 & num_zeros_to_word2_mask(nz) == 0;
        assert_eq!(passes, hash_starts_n_zeroes(&d, nz), "nz = {}", nz);
    }
    assert!(hash_starts_n_zeroes(&d, 9));
    assert!(!hash_starts_n_zeroes(&d, 10));
}
