use coin_miner::digest::claim_hash;
use coin_miner::error::{Error, RequestFailure};
use coin_miner::tracker::{
    all_requests_failed, claim_response, difficulty_response, direct_claim_step, head_response, no_clients,
    poll_attempt_counts, proxy_claim_step, ClaimReply, ClaimStep, Plan, Poller, RateWindow, Tracker,
};
use coin_miner::util::hex_starts_n_zeroes;

const MINER: &str = "d41f33d21c5b2c49053c2b1cc2a8cc84";

fn timeout() -> RequestFailure {
    RequestFailure { timeout: true, status: None, detail: "timed out".to_string() }
}

#[test]
fn fake_tracker_claim_scenario() {
    let mut t = Tracker::new_fake_seeded(MINER.to_string(), 0x1234_5678).unwrap();
    let head = match t.plan_last_coin(0) {
        Plan::Ready(h) => h,
        Plan::Fetch => panic!("a fake tracker answers at once"),
    };
    assert_eq!(head.len(), 32);
    assert!(hex_starts_n_zeroes(&head, 8));
    let blob = base64::decode("WICbUP4soPxDWXV92qR6dpP7Rhs=").unwrap();
    let (_, h_hex) = claim_hash(&head, &blob, MINER).unwrap();
    match t.claim_fake(&blob, &head, &h_hex) {
        Ok(()) => {
            assert!(hex_starts_n_zeroes(&h_hex, 8));
            assert_eq!(t.fake_last_coin.as_deref(), Some(h_hex.as_str()));
        },
        Err(Error::Msg(m)) => {
            assert!(m.starts_with(&format!("Invalid Coin Hash: {} Coin: ", h_hex)), "{}", m);
            assert_eq!(t.fake_last_coin.as_deref(), Some(head.as_str()));
        },
        Err(e) => panic!("unexpected error {:?}", e),
    }
}

#[test]
fn fake_tracker_advances_on_a_valid_coin() {
    let mut t = Tracker::new_fake_seeded(MINER.to_string(), 7).unwrap();
    let head = t.fake_last_coin.clone().unwrap();
    t.difficulty = 0;
    let blob = vec![1u8, 2, 3];
    let (_, h_hex) = claim_hash(&head, &blob, MINER).unwrap();
    assert!(t.claim_fake(&blob, &head, &h_hex).is_ok());
    assert_eq!(t.fake_last_coin.as_deref(), Some(h_hex.as_str()));
}

#[test]
fn fake_tracker_rejects_wrong_head_and_wrong_hash() {
    let mut t = Tracker::new_fake_seeded(MINER.to_string(), 7).unwrap();
    let head = t.fake_last_coin.clone().unwrap();
    match t.claim_fake(&[1, 2, 3], "00000000008c70b237c12e2c25d278cc", "0000") {
        Err(Error::Msg(m)) => assert_eq!(m, "Previous coin does not match!"),
        other => panic!("{:?}", other),
    }
    t.difficulty = 0;
    let (_, h_hex) = claim_hash(&head, &[1, 2, 3], MINER).unwrap();
    match t.claim_fake(&[1, 2, 3], &head, "ffffffffffffffffffffffffffffffff") {
        Err(Error::Msg(m)) => assert_eq!(
            m,
            format!("Calculated hash {} does not match given hash ffffffffffffffffffffffffffffffff!", h_hex)
        ),
        other => panic!("{:?}", other),
    }
    assert_eq!(t.fake_last_coin.as_deref(), Some(head.as_str()));
}

#[test]
fn fake_tracker_reports_fixed_difficulty() {
    let mut t = Tracker::new_fake_seeded(MINER.to_string(), 1).unwrap();
    assert!(matches!(t.plan_difficulty(0), Plan::Ready(8)));
    assert_eq!(t.client_reqs.stamps.len(), 0);
}

#[test]
fn live_tracker_rate_limits_head_requests() {
    let mut t = Tracker::new(MINER.to_string());
    for i in 0..5u64 {
        assert!(matches!(t.plan_last_coin(i), Plan::Fetch));
    }
    match t.plan_last_coin(10) {
        Plan::Ready(h) => assert_eq!(h, "00000000008c70b237c12e2c25d278cc"),
        Plan::Fetch => panic!("the window is full"),
    }
    assert!(matches!(t.plan_last_coin(60_001), Plan::Fetch));
}

#[test]
fn live_tracker_validates_fetched_head() {
    let mut t = Tracker::new(MINER.to_string());
    let h = t.finish_last_coin(Ok("0000000000aaaaaaaaaaaaaaaaaaaaaa".to_string()));
    assert_eq!(h, "0000000000aaaaaaaaaaaaaaaaaaaaaa");
    let h = t.finish_last_coin(Ok("not a head".to_string()));
    assert_eq!(h, "0000000000aaaaaaaaaaaaaaaaaaaaaa");
    let h = t.finish_last_coin(Ok("0000000000AAAAAAAAAAAAAAAAAAAAAA".to_string()));
    assert_eq!(h, "0000000000aaaaaaaaaaaaaaaaaaaaaa");
    let h = t.finish_last_coin(Err(Error::ServerBusy));
    assert_eq!(h, "0000000000aaaaaaaaaaaaaaaaaaaaaa");
    assert!(!t.record_polled_head("xyz".to_string()));
    assert!(t.record_polled_head("0000000000bbbbbbbbbbbbbbbbbbbbbb".to_string()));
    assert_eq!(t.last_coin, "0000000000bbbbbbbbbbbbbbbbbbbbbb");
}

#[test]
fn live_tracker_difficulty_limits() {
    let mut t = Tracker::new(MINER.to_string());
    assert!(matches!(t.plan_difficulty(0), Plan::Fetch));
    assert!(matches!(t.plan_difficulty(1), Plan::Fetch));
    assert!(matches!(t.plan_difficulty(2), Plan::Ready(8)));
    assert_eq!(t.finish_difficulty(Ok(9)), 9);
    assert_eq!(t.finish_difficulty(Ok(16)), 9);
    assert_eq!(t.finish_difficulty(Ok(40)), 9);
    assert_eq!(t.finish_difficulty(Ok(15)), 15);
    assert!(!t.record_polled_difficulty(16));
    assert!(t.record_polled_difficulty(10));
    assert_eq!(t.difficulty, 10);
}

#[test]
fn rate_window_drops_stale_entries() {
    let mut w = RateWindow::new();
    assert!(w.try_acquire(0, 2));
    assert!(w.try_acquire(1000, 2));
    assert!(!w.try_acquire(2000, 2));
    assert_eq!(w.stamps.len(), 2);
    assert!(!w.try_acquire(60_000, 2));
    assert!(w.try_acquire(60_001, 2));
    assert_eq!(w.stamps.iter().copied().collect::<Vec<u64>>(), vec![60_001, 1000]);
    assert!(w.try_acquire(61_001, 2));
    assert_eq!(w.stamps.len(), 2);
}

#[test]
fn claim_body_encodes_blob() {
    let t = Tracker::new(MINER.to_string());
    let req = t.claim_body(&[0x58, 0x80, 0x9b], "00000000008c70b237c12e2c25d278cc".to_string());
    assert_eq!(req.coin_blob, "WICb");
    assert_eq!(req.id_of_miner, MINER);
    assert_eq!(req.hash_of_last_coin, "00000000008c70b237c12e2c25d278cc");
    let req = t.claim_body(&[1], String::new());
    assert_eq!(req.coin_blob, "AQ==");
}

#[test]
fn claim_400_with_bad_coin() {
    let r = claim_response(400, Ok(ClaimReply::Fail("not authorized".to_string())), "400 Bad Request");
    match r {
        Err(Error::BadCoin(d)) => assert_eq!(d, "not authorized"),
        other => panic!("{:?}", other),
    }
    match claim_response(400, Err(timeout()), "400 Bad Request") {
        Err(Error::BadCoin(d)) => assert_eq!(d, ""),
        other => panic!("{:?}", other),
    }
}

#[test]
fn claim_response_classes() {
    assert!(claim_response(200, Ok(ClaimReply::Success("ok".to_string())), "200 OK").is_ok());
    match claim_response(200, Ok(ClaimReply::Fail("late".to_string())), "200 OK") {
        Err(Error::Msg(m)) => assert_eq!(m, "Claim Coin failed with error: late"),
        other => panic!("{:?}", other),
    }
    assert!(matches!(claim_response(429, Ok(ClaimReply::Success(String::new())), "429"), Err(Error::ServerBusy)));
    assert!(matches!(claim_response(409, Err(timeout()), "409"), Err(Error::ServerBusy)));
    match claim_response(500, Err(timeout()), "500 Internal Server Error") {
        Err(Error::Msg(m)) => assert_eq!(m, "Claim Coin failed Http 500 Internal Server Error"),
        other => panic!("{:?}", other),
    }
}

#[test]
fn head_and_difficulty_response_classes() {
    assert_eq!(head_response(200, Ok("abc".to_string()), "200 OK").unwrap(), "abc");
    assert!(matches!(head_response(400, Ok(String::new()), "400"), Err(Error::ServerBusy)));
    match head_response(503, Ok(String::new()), "503 Service Unavailable") {
        Err(Error::Msg(m)) => assert_eq!(m, "Get Last Coin Failed Http 503 Service Unavailable"),
        other => panic!("{:?}", other),
    }
    assert_eq!(difficulty_response(200, Ok(9), "200 OK").unwrap(), 9);
    assert!(matches!(difficulty_response(200, Err(timeout()), "200 OK"), Err(Error::Request(_))));
    match difficulty_response(404, Ok(9), "404 Not Found") {
        Err(Error::Msg(m)) => assert_eq!(m, "Get Difficulty Failed Http 404 Not Found"),
        other => panic!("{:?}", other),
    }
}

#[test]
fn error_fatality() {
    assert!(Error::BadCoin("x".to_string()).err_is_fatal());
    assert!(!Error::ServerBusy.err_is_fatal());
    assert!(!Error::Request(timeout()).err_is_fatal());
    let busy = RequestFailure { timeout: false, status: Some(429), detail: String::new() };
    assert!(!Error::Request(busy).err_is_fatal());
    let conflict = RequestFailure { timeout: false, status: Some(409), detail: String::new() };
    assert!(!Error::Request(conflict).err_is_fatal());
    let gone = RequestFailure { timeout: false, status: Some(500), detail: String::new() };
    assert!(Error::Request(gone).err_is_fatal());
    let refused = RequestFailure { timeout: false, status: None, detail: String::new() };
    assert!(Error::Request(refused).err_is_fatal());
    assert!(Error::new("x".to_string()).err_is_fatal());
}

#[test]
fn claim_steps() {
    assert!(matches!(direct_claim_step(Ok(())), ClaimStep::Done(Ok(()))));
    assert!(matches!(direct_claim_step(Err(Error::ServerBusy)), ClaimStep::Retry(Error::ServerBusy)));
    assert!(matches!(direct_claim_step(Err(Error::BadCoin(String::new()))), ClaimStep::Done(Err(Error::BadCoin(_)))));
    let (counts, step) = proxy_claim_step(Err(Error::BadCoin(String::new())));
    assert!(counts);
    assert!(matches!(step, ClaimStep::Done(Err(Error::BadCoin(_)))));
    let (counts, step) = proxy_claim_step(Err(Error::new("boom".to_string())));
    assert!(!counts);
    assert!(matches!(step, ClaimStep::Done(Err(Error::Msg(_)))));
    let (counts, step) = proxy_claim_step(Err(Error::ServerBusy));
    assert!(counts);
    assert!(matches!(step, ClaimStep::Retry(_)));
    match all_requests_failed(&no_clients()) {
        Error::AllRequestsFailed(m) => assert_eq!(m, "All Requests Failed: No Clients"),
        other => panic!("{:?}", other),
    }
    match all_requests_failed(&Error::BadCoin("x".to_string())) {
        Error::AllRequestsFailed(m) => assert_eq!(m, "All Requests Failed: BadCoin: x"),
        other => panic!("{:?}", other),
    }
}

#[test]
fn poller_schedule_and_back_off() {
    let mut p = Poller::new(100);
    let d = p.due(101);
    assert!(d.head && !d.difficulty);
    let d = p.due(201);
    assert!(d.head && d.difficulty);
    for _ in 0..5 {
        let a = p.after_round(false, true, 10);
        assert!(!a.back_off);
    }
    let a = p.after_round(false, true, 40_000);
    assert!(a.back_off);
    assert!(a.print_error);
    assert_eq!(p.fail_count, 0);
    let a = p.after_round(true, false, 70_000);
    assert!(a.reload_proxies);
    assert!(!a.back_off);
    assert!(poll_attempt_counts::<u64>(&Err(Error::ServerBusy)));
    assert!(!poll_attempt_counts::<u64>(&Err(Error::BadCoin(String::new()))));
    assert!(poll_attempt_counts(&Ok(5u64)));
}

#[test]
fn fake_tracker_checks_the_recomputed_hash() {
    let mut t = Tracker::new_fake_seeded(MINER.to_string(), 7).unwrap();
    let head = t.fake_last_coin.clone().unwrap();
    t.difficulty = 8;
    let blob = vec![1u8, 2, 3];
    let (_, h_hex) = claim_hash(&head, &blob, MINER).unwrap();
    let claimed = "00000000000000000000000000000000";
    let r = t.claim_fake(&blob, &head, claimed);
    if hex_starts_n_zeroes(&h_hex, 8) {
        assert!(r.is_err());
    } else {
        match r {
            Err(Error::Msg(m)) => assert!(m.starts_with(&format!("Invalid Coin Hash: {} Coin: ", h_hex)), "{}", m),
            other => panic!("{:?}", other),
        }
    }
    assert_eq!(t.fake_last_coin.as_deref(), Some(head.as_str()));
}
