use coin_miner::proxy::{ProxyClient, ProxyManager};

fn pool_with_latencies(ls: &[u64]) -> ProxyManager<u32> {
    let mut pm = ProxyManager::new();
    for i in 0..ls.len() {
        assert!(pm.add_proxy(i as u32, format!("http://proxy{}:8080", i), 0));
    }
    let all = pm.get_clients_with(ls.len(), &vec![0u32; ls.len()]);
    assert_eq!(all.len(), ls.len());
    for mut c in all {
        c.latency_ms = ls[c.client as usize];
        assert!(pm.return_client(c, 0));
    }
    pm
}

#[test]
fn proxy_selection_bias() {
    let mut pm = pool_with_latencies(&[7, 3, 10, 1, 5, 2, 9, 4, 8, 6]);
    let lat: Vec<u64> = pm.proxies.iter().map(|p| p.latency_ms).collect();
    assert_eq!(lat, vec![1, 2, 3, 4, 5, 6, 7, 8, 9, 10]);
    let got = pm.get_clients_with(2, &[u32::MAX; 10]);
    let lat: Vec<u64> = got.iter().map(|p| p.latency_ms).collect();
    assert_eq!(lat, vec![1, 2]);
    assert_eq!(pm.proxies.len(), 8);
    let got2 = pm.get_clients(2);
    assert_eq!(got2.len(), 2);
    assert_eq!(got2[0].latency_ms, 3);
    assert_eq!(pm.get_clients(20).len(), 6);
}

#[test]
fn proxy_selection_passes_over_unlucky_draws() {
    let mut pm = pool_with_latencies(&[1, 2, 3, 4, 5, 6]);
    // m = 4: a draw keeps its proxy when draw * 4 < 2^33, i.e. below 2^31.
    let draws = [u32::MAX, 0, u32::MAX, 0, 0, 0];
    let got = pm.get_clients_with(4, &draws);
    let lat: Vec<u64> = got.iter().map(|p| p.latency_ms).collect();
    // 1 passed, 2 kept, 3 passed, then 4, 5, 6 must all be kept.
    assert_eq!(lat, vec![2, 4, 5, 6]);
    let rest: Vec<u64> = pm.proxies.iter().map(|p| p.latency_ms).collect();
    assert_eq!(rest, vec![1, 3]);
}

#[test]
fn proxy_withdraws_at_most_what_is_there() {
    let mut pm = pool_with_latencies(&[1, 2]);
    let got = pm.get_clients_with(8, &[u32::MAX, u32::MAX]);
    assert_eq!(got.len(), 2);
    assert_eq!(pm.proxies.len(), 0);
    let mut empty: ProxyManager<u32> = ProxyManager::new();
    assert_eq!(empty.get_clients(8).len(), 0);
    assert_eq!(empty.stats(), (0, 0));
}

#[test]
fn proxy_latency_accounting() {
    let mut c = ProxyClient::new(5u32, "http://p:1".to_string(), 0);
    c.finish_access(3000, true, 10);
    assert_eq!(c.latency_ms, 2000);
    assert_eq!(c.last_success_ms, 10);
    c.finish_access(1000, false, 20);
    assert_eq!(c.latency_ms, 2500);
    assert_eq!(c.fail_count, 1);
    assert_eq!(c.last_success_ms, 10);
}

#[test]
fn bad_proxies_are_dropped_on_return() {
    let mut pm: ProxyManager<u32> = ProxyManager::new();
    assert!(pm.add_proxy(1, "http://p:1".to_string(), 0));
    let mut c = pm.get_clients_with(1, &[0]).pop().unwrap();
    for _ in 0..101 {
        c.finish_access(10, false, 5);
    }
    assert!(!c.bad(600_999));
    assert!(c.bad(601_000));
    assert!(!pm.return_client(c, 601_000));
    assert_eq!(pm.proxies.len(), 0);
    assert!(!pm.add_proxy(2, "http://p:1".to_string(), 0));
}

#[test]
fn proxy_file_lines_are_deduplicated() {
    let mut pm: ProxyManager<u32> = ProxyManager::new();
    assert!(pm.add_proxy(1, "http://a:1".to_string(), 0));
    let lines = vec![
        "http://a:1".to_string(),
        "http://b:1".to_string(),
        "http://c:1".to_string(),
        "http://b:1".to_string(),
    ];
    let fresh = pm.new_urls(&lines);
    assert_eq!(fresh, vec!["http://b:1".to_string(), "http://c:1".to_string()]);
    assert!(pm.is_known("http://a:1"));
    assert!(!pm.is_known("http://b:1"));
}
