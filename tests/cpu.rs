use coin_miner::cpuminer::{BlobArena, CpuMinerFunction};
use coin_miner::digest::claim_message;

#[test]
fn cpu_message_is_whole_blocks_within_cap() {
    let f = CpuMinerFunction::new();
    for rnd in [0u32, 1, 63, 64, 415, 416, 417, 447, 448, 511, 512, 1000, u32::MAX] {
        let filler = f.filler_len(rnd, 49, 32);
        assert_eq!((49 + 32 + filler + 32) % 64, 0, "rnd = {}", rnd);
        assert!(32 + filler <= 512, "rnd = {}", rnd);
    }
    assert_eq!(f.filler_len(0, 49, 32), 15);
    assert_eq!(f.filler_len(500, 49, 32), 463);
}

#[test]
fn cpu_filler_stays_under_cap_for_short_prefixes() {
    let f = CpuMinerFunction::new();
    let filler = f.filler_len(447 + 64, 17, 16);
    assert!(32 + filler <= 512);
    assert_eq!((17 + 32 + filler + 16) % 64, 0);
}

#[test]
fn cpu_sweep_mutates_bytes_in_order() {
    let f = CpuMinerFunction::new();
    let mut blob: BlobArena = arrayvec::ArrayVec::new();
    blob.try_extend_from_slice(&[10u8, 20]).unwrap();
    let (found, n) = f.sweep(b"x", &mut blob, b"y").unwrap();
    // With two bytes there are 512 candidate states; at a guess none hits.
    if !found {
        assert_eq!(n, 512);
        // byte 0 gets 0 + 1 + ... + 255, byte 1 the same, modulo 256.
        let total: u32 = (0..256u32).sum::<u32>() % 256;
        assert_eq!(blob.as_slice(), &[(10 + total) as u8, (20 + total) as u8]);
    } else {
        let msg = [b"x".to_vec(), blob.to_vec(), b"y".to_vec()].concat();
        let d = openssl::hash::hash(openssl::hash::MessageDigest::md5(), &msg).unwrap();
        assert_eq!(&d[0..4], &[0, 0, 0, 0]);
    }
}

#[test]
fn cpu_search_pass_draws_a_well_sized_blob() {
    let f = CpuMinerFunction::new();
    let prefix = claim_message("00000000008c70b237c12e2c25d278cc", &[], "");
    let suffix = b"d41f33d21c5b2c49053c2b1cc2a8cc84".to_vec();
    let (hit, n) = f.search_pass(&prefix, &suffix, 12345).unwrap();
    match hit {
        Some(b) => {
            assert_eq!((prefix.len() + b.len() + suffix.len()) % 64, 0);
            let msg = [prefix.clone(), b, suffix.clone()].concat();
            let d = openssl::hash::hash(openssl::hash::MessageDigest::md5(), &msg).unwrap();
            assert_eq!(&d[0..4], &[0, 0, 0, 0]);
        },
        None => {
            assert!(n >= 256 * 32);
            assert_eq!(n % 256, 0);
        },
    }
}
