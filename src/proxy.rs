use vstd::prelude::*;
use crate::codec::str_eq;
use crate::entropy::os_random_u32;

verus! {

/// Failures after which a proxy that has also been silent for
/// `BAD_SILENCE_SECS` is dropped.
pub const BAD_FAIL_COUNT: u32 = 100;
/// Whole seconds without a success after which a failing proxy is dropped.
pub const BAD_SILENCE_SECS: u64 = 600;
/// Latency added to a proxy for each failed use.
pub const FAILURE_PENALTY_MS: u64 = 1000;
/// Latency a new proxy starts with.
pub const INITIAL_LATENCY_MS: u64 = 1000;

/// One outbound path: its client, its URL, its smoothed latency, when it last
/// succeeded, and how often it has failed since.
pub struct ProxyClient<C> {
    pub client: C,
    pub url: String,
    pub latency_ms: u64,
    pub last_success_ms: u64,
    pub fail_count: u32,
}

/// The mean of two latencies, rounded down.
pub open spec fn mean(a: u64, b: u64) -> int {
    (a as int + b as int) / 2
}

impl<C> ProxyClient<C> {
    /// A fresh proxy at clock reading `now_ms`.
    pub fn new(client: C, url: String, now_ms: u64) -> (p: ProxyClient<C>)
        ensures
            p.client == client,
            p.url == url,
            p.latency_ms == INITIAL_LATENCY_MS,
            p.last_success_ms == now_ms,
            p.fail_count == 0,
    {
        ProxyClient { client, url, latency_ms: INITIAL_LATENCY_MS, last_success_ms: now_ms, fail_count: 0 }
    }

    /// Whether the proxy is to be dropped at clock reading `now_ms`: more
    /// than `BAD_FAIL_COUNT` failures and no success for more than
    /// `BAD_SILENCE_SECS` whole seconds.
    pub fn bad(&self, now_ms: u64) -> (r: bool)
        ensures
            r == (self.fail_count > BAD_FAIL_COUNT && now_ms >= self.last_success_ms
                && (now_ms - self.last_success_ms) / 1000 > BAD_SILENCE_SECS),
    {
        self.fail_count > BAD_FAIL_COUNT && now_ms >= self.last_success_ms
            && (now_ms - self.last_success_ms) / 1000 > BAD_SILENCE_SECS
    }

    /// Books one use that took `elapsed_ms`, at clock reading `now_ms`: the
    /// latency becomes the mean of the old latency and the measured one; a
    /// success records the time and clears the failures, a failure adds
    /// `FAILURE_PENALTY_MS` (saturating) and counts one more failure.
    pub fn finish_access(&mut self, elapsed_ms: u64, success: bool, now_ms: u64)
        ensures
            final(self).client == old(self).client,
            final(self).url == old(self).url,
            success ==> {
                &&& final(self).latency_ms == mean(old(self).latency_ms, elapsed_ms)
                &&& final(self).last_success_ms == now_ms
                &&& final(self).fail_count == 0
            },
            !success ==> {
                &&& final(self).latency_ms == if mean(old(self).latency_ms, elapsed_ms) + FAILURE_PENALTY_MS > u64::MAX {
                    u64::MAX as int
                } else {
                    mean(old(self).latency_ms, elapsed_ms) + FAILURE_PENALTY_MS
                }
                &&& final(self).last_success_ms == old(self).last_success_ms
                &&& final(self).fail_count == if old(self).fail_count < u32::MAX {
                    old(self).fail_count + 1
                } else {
                    old(self).fail_count as int
                }
            },
    {
        let a = self.latency_ms;
        self.latency_ms = a / 2 + elapsed_ms / 2 + (a % 2 + elapsed_ms % 2) / 2;
        if success {
            self.last_success_ms = now_ms;
            self.fail_count = 0;
        } else {
            self.latency_ms = self.latency_ms.saturating_add(FAILURE_PENALTY_MS);
            self.fail_count = self.fail_count.saturating_add(1);
        }
    }
}

/// Whether `u` is among the strings `urls`.
pub open spec fn url_known(urls: Seq<String>, u: Seq<char>) -> bool {
    exists|j: int| 0 <= j < urls.len() && #[trigger] urls[j]@ == u
}

/// Whether proxies run from lowest to highest latency.
pub open spec fn sorted_by_latency<C>(s: Seq<ProxyClient<C>>) -> bool {
    forall|i: int, j: int| 0 <= i < j < s.len() ==> s[i].latency_ms <= s[j].latency_ms
}

/// The URLs of the proxies in `s`.
pub open spec fn pool_urls<C>(s: Seq<ProxyClient<C>>) -> Set<Seq<char>> {
    Set::new(|u: Seq<char>| exists|i: int| 0 <= i < s.len() && #[trigger] s[i].url@ == u)
}

/// Whether no two proxies in `s` share a URL.
pub open spec fn distinct_urls<C>(s: Seq<ProxyClient<C>>) -> bool {
    forall|i: int, j: int| 0 <= i < j < s.len() ==> s[i].url@ != s[j].url@
}

proof fn lemma_pool_urls_concat<C>(a: Seq<ProxyClient<C>>, b: Seq<ProxyClient<C>>)
    ensures
        pool_urls(a + b) == pool_urls(a).union(pool_urls(b)),
{
    let ab = a + b;
    assert forall|u: Seq<char>| pool_urls(ab).contains(u) <==> pool_urls(a).union(pool_urls(b)).contains(u) by {
        if pool_urls(ab).contains(u) {
            let i = choose|i: int| 0 <= i < ab.len() && #[trigger] ab[i].url@ == u;
            if i < a.len() {
                assert(a[i].url@ == u);
            } else {
                assert(b[i - a.len()].url@ == u);
            }
        }
        if pool_urls(a).contains(u) {
            let i = choose|i: int| 0 <= i < a.len() && #[trigger] a[i].url@ == u;
            assert(ab[i].url@ == u);
        }
        if pool_urls(b).contains(u) {
            let i = choose|i: int| 0 <= i < b.len() && #[trigger] b[i].url@ == u;
            assert(ab[i + a.len()].url@ == u);
        }
    }
    assert(pool_urls(ab) =~= pool_urls(a).union(pool_urls(b)));
}

proof fn lemma_pool_urls_single<C>(e: ProxyClient<C>)
    ensures
        pool_urls(seq![e]) == Set::<Seq<char>>::empty().insert(e.url@),
{
    assert(seq![e][0].url@ == e.url@);
    assert(pool_urls(seq![e]) =~= Set::<Seq<char>>::empty().insert(e.url@));
}

/// Whether a draw keeps the proxy it is drawn for, when `m` are wanted: the
/// draw, read as a fraction of 2^32, is below `2 / m`.
pub open spec fn keeps(draw: u32, m: int) -> bool {
    draw as int * m < 2 * 0x1_0000_0000
}

/// The keep/pass decisions of one selection, for the `k` proxies left in
/// order of latency while `need` are still wanted out of `m`: a proxy is kept
/// when no more are left than are wanted, or when its draw keeps it. The
/// selection stops once nothing is wanted or nothing is left.
pub open spec fn selection(k: nat, need: nat, m: int, draws: Seq<u32>) -> Seq<bool>
    decreases k,
{
    if k == 0 || need == 0 {
        seq![]
    } else {
        let keep = k <= need || keeps(draws[0], m);
        seq![keep] + selection((k - 1) as nat, if keep { (need - 1) as nat } else { need }, m, draws.drop_first())
    }
}

/// The decisions of a selection of up to `n` out of `len` proxies.
pub open spec fn picks(len: nat, n: usize, draws: Seq<u32>) -> Seq<bool> {
    let m = if n < len { n as nat } else { len };
    selection(len, m, m as int, draws)
}

/// The proxies among the first `f.len()` of `s` that `f` keeps, in order.
pub open spec fn chosen<C>(s: Seq<ProxyClient<C>>, f: Seq<bool>) -> Seq<ProxyClient<C>>
    decreases f.len(),
{
    if f.len() == 0 {
        seq![]
    } else {
        chosen(s, f.drop_last()) + if f.last() { seq![s[f.len() - 1]] } else { seq![] }
    }
}

/// The proxies among the first `f.len()` of `s` that `f` passes over, in
/// order.
pub open spec fn passed<C>(s: Seq<ProxyClient<C>>, f: Seq<bool>) -> Seq<ProxyClient<C>>
    decreases f.len(),
{
    if f.len() == 0 {
        seq![]
    } else {
        passed(s, f.drop_last()) + if f.last() { seq![] } else { seq![s[f.len() - 1]] }
    }
}

proof fn lemma_selection_len(k: nat, need: nat, m: int, draws: Seq<u32>)
    ensures
        selection(k, need, m, draws).len() <= k,
    decreases k,
{
    if k > 0 && need > 0 {
        let keep = k <= need || keeps(draws[0], m);
        lemma_selection_len((k - 1) as nat, if keep { (need - 1) as nat } else { need }, m, draws.drop_first());
    }
}

/// A pool of proxies ordered by latency, with the URLs it has ever loaded.
pub struct ProxyManager<C> {
    pub proxies: Vec<ProxyClient<C>>,
    pub proxy_urls: Vec<String>,
    /// The URLs of the proxies withdrawn and not yet taken back.
    pub outstanding: Ghost<Set<Seq<char>>>,
}

impl<C> ProxyManager<C> {
    /// Well-formed: the pool runs from lowest to highest latency; no URL is
    /// twice in it; none of its URLs is withdrawn; and every URL pooled or
    /// withdrawn was loaded.
    pub open spec fn wf(&self) -> bool {
        &&& sorted_by_latency(self.proxies@)
        &&& distinct_urls(self.proxies@)
        &&& pool_urls(self.proxies@).disjoint(self.outstanding@)
        &&& forall|u: Seq<char>| #[trigger] self.live().contains(u) ==> url_known(self.proxy_urls@, u)
    }

    /// Every URL the pool holds or has handed out.
    pub open spec fn live(&self) -> Set<Seq<char>> {
        pool_urls(self.proxies@).union(self.outstanding@)
    }

    /// An empty pool.
    pub fn new() -> (pm: ProxyManager<C>)
        ensures
            pm.wf(),
            pm.proxies@.len() == 0,
            pm.proxy_urls@.len() == 0,
            pm.outstanding@.is_empty(),
    {
        let pm = ProxyManager { proxies: Vec::new(), proxy_urls: Vec::new(), outstanding: Ghost(Set::empty()) };
        assert(pm.live() =~= Set::empty());
        pm
    }

    /// How many proxies are in the pool, and the lowest latency (0 when the
    /// pool is empty).
    pub fn stats(&self) -> (r: (usize, u64))
        ensures
            r.0 == self.proxies@.len(),
            r.1 == if self.proxies@.len() == 0 { 0 } else { self.proxies@[0].latency_ms },
    {
        if self.proxies.len() == 0 {
            (0, 0)
        } else {
            (self.proxies.len(), self.proxies[0].latency_ms)
        }
    }

    /// Whether `url` was ever loaded into the pool.
    pub fn is_known(&self, url: &str) -> (r: bool)
        ensures
            r == url_known(self.proxy_urls@, url@),
    {
        let mut i: usize = 0;
        while i < self.proxy_urls.len()
            invariant
                i <= self.proxy_urls@.len(),
                forall|j: int| 0 <= j < i ==> #[trigger] self.proxy_urls@[j]@ != url@,
            decreases self.proxy_urls@.len() - i,
        {
            if str_eq(self.proxy_urls[i].as_str(), url) {
                return true;
            }
            i = i + 1;
        }
        false
    }

    /// Inserts a proxy after every proxy with no higher latency.
    fn insert_sorted(&mut self, c: ProxyClient<C>)
        requires
            sorted_by_latency(old(self).proxies@),
            distinct_urls(old(self).proxies@),
            !pool_urls(old(self).proxies@).contains(c.url@),
        ensures
            sorted_by_latency(final(self).proxies@),
            distinct_urls(final(self).proxies@),
            pool_urls(final(self).proxies@) == pool_urls(old(self).proxies@).insert(c.url@),
            final(self).proxy_urls == old(self).proxy_urls,
            final(self).outstanding == old(self).outstanding,
            exists|k: int| 0 <= k <= old(self).proxies@.len()
                && final(self).proxies@ == old(self).proxies@.insert(k, c),
    {
        let mut k: usize = 0;
        while k < self.proxies.len() && self.proxies[k].latency_ms <= c.latency_ms
            invariant
                k <= self.proxies@.len(),
                forall|j: int| 0 <= j < k ==> #[trigger] self.proxies@[j].latency_ms <= c.latency_ms,
            decreases self.proxies@.len() - k,
        {
            k = k + 1;
        }
        let ghost before = self.proxies@;
        let ghost cu = c.url@;
        self.proxies.insert(k, c);
        assert(sorted_by_latency(self.proxies@)) by {
            assert forall|i: int, j: int| 0 <= i < j < self.proxies@.len() implies
                self.proxies@[i].latency_ms <= self.proxies@[j].latency_ms by {
                if j < k {
                } else if j == k {
                } else if i < k {
                    assert(before[i].latency_ms <= self.proxies@[k as int].latency_ms);
                    if k < before.len() {
                        assert(self.proxies@[k as int].latency_ms < before[k as int].latency_ms);
                        assert(before[k as int].latency_ms <= before[j - 1].latency_ms);
                    }
                } else if i == k {
                    assert(self.proxies@[k as int].latency_ms < before[k as int].latency_ms);
                    assert(before[k as int].latency_ms <= before[j - 1].latency_ms);
                } else {
                }
            }
        }
        assert(distinct_urls(self.proxies@)) by {
            assert forall|i: int, j: int| 0 <= i < j < self.proxies@.len() implies
                self.proxies@[i].url@ != self.proxies@[j].url@ by {
                if i == k {
                    assert(before[j - 1].url@ != cu) by {
                        if before[j - 1].url@ == cu {
                            assert(pool_urls(before).contains(cu));
                        }
                    }
                } else if j == k {
                    assert(before[i].url@ != cu) by {
                        if before[i].url@ == cu {
                            assert(pool_urls(before).contains(cu));
                        }
                    }
                }
            }
        }
        proof {
            let t = before.subrange(0, k as int);
            let d = before.subrange(k as int, before.len() as int);
            assert(before =~= t + d);
            assert(self.proxies@ =~= t + seq![self.proxies@[k as int]] + d);
            lemma_pool_urls_concat(t, d);
            lemma_pool_urls_concat(t, seq![self.proxies@[k as int]]);
            lemma_pool_urls_concat(t + seq![self.proxies@[k as int]], d);
            lemma_pool_urls_single(self.proxies@[k as int]);
            assert(pool_urls(self.proxies@) =~= pool_urls(before).insert(cu));
        }
    }

    /// Adds a proxy loaded from `url` at clock reading `now_ms`, unless that
    /// URL was loaded before. Returns whether it was added.
    pub fn add_proxy(&mut self, client: C, url: String, now_ms: u64) -> (added: bool)
        requires
            old(self).wf(),
        ensures
            final(self).wf(),
            final(self).outstanding == old(self).outstanding,
            added == !url_known(old(self).proxy_urls@, url@),
            added ==> final(self).proxy_urls@ == old(self).proxy_urls@.push(url)
                && final(self).live() == old(self).live().insert(url@)
                && exists|k: int| 0 <= k <= old(self).proxies@.len()
                    && final(self).proxies@ == old(self).proxies@.insert(k, (ProxyClient {
                        client,
                        url,
                        latency_ms: INITIAL_LATENCY_MS,
                        last_success_ms: now_ms,
                        fail_count: 0,
                    })),
            !added ==> final(self).proxy_urls == old(self).proxy_urls && final(self).proxies == old(self).proxies,
    {
        if self.is_known(url.as_str()) {
            return false;
        }
        let u = url.clone();
        let ghost old_live = self.live();
        assert(!self.live().contains(url@));
        self.insert_sorted(ProxyClient::new(client, url, now_ms));
        let ghost old_known = self.proxy_urls@;
        self.proxy_urls.push(u);
        proof {
            assert(self.live() =~= old_live.insert(u@));
            assert forall|x: Seq<char>| #[trigger] self.live().contains(x) implies url_known(self.proxy_urls@, x) by {
                if x == u@ {
                    assert(self.proxy_urls@[old_known.len() as int]@ == x);
                } else {
                    assert(old_live.contains(x));
                    let j = choose|j: int| 0 <= j < old_known.len() && #[trigger] old_known[j]@ == x;
                    assert(self.proxy_urls@[j]@ == x);
                }
            }
        }
        true
    }

    /// The lines of a proxy file that name URLs not loaded before, each once,
    /// in file order.
    pub fn new_urls(&self, lines: &Vec<String>) -> (r: Vec<String>)
        ensures
            forall|i: int| 0 <= i < r@.len() ==> !url_known(self.proxy_urls@, #[trigger] r@[i]@),
            forall|i: int| 0 <= i < r@.len() ==> url_known(lines@, #[trigger] r@[i]@),
            forall|i: int, j: int| 0 <= i < j < r@.len() ==> r@[i]@ != r@[j]@,
            forall|i: int| 0 <= i < lines@.len() ==> url_known(self.proxy_urls@, #[trigger] lines@[i]@)
                || url_known(r@, lines@[i]@),
    {
        let mut r: Vec<String> = Vec::new();
        let mut i: usize = 0;
        while i < lines.len()
            invariant
                i <= lines@.len(),
                forall|a: int| 0 <= a < r@.len() ==> !url_known(self.proxy_urls@, #[trigger] r@[a]@),
                forall|a: int| 0 <= a < r@.len() ==> url_known(lines@, #[trigger] r@[a]@),
                forall|a: int, b: int| 0 <= a < b < r@.len() ==> r@[a]@ != r@[b]@,
                forall|a: int| 0 <= a < i ==> url_known(self.proxy_urls@, #[trigger] lines@[a]@)
                    || url_known(r@, lines@[a]@),
            decreases lines@.len() - i,
        {
            let line = &lines[i];
            if !self.is_known(line.as_str()) {
                let mut seen = false;
                let mut j: usize = 0;
                while j < r.len()
                    invariant
                        j <= r@.len(),
                        !seen ==> forall|b: int| 0 <= b < j ==> #[trigger] r@[b]@ != line@,
                        seen ==> url_known(r@, line@),
                    decreases r@.len() - j,
                {
                    if str_eq(r[j].as_str(), line.as_str()) {
                        seen = true;
                    }
                    j = j + 1;
                }
                if !seen {
                    let ghost before = r@;
                    r.push(line.clone());
                    assert forall|a: int| 0 <= a < i implies url_known(self.proxy_urls@, #[trigger] lines@[a]@)
                        || url_known(r@, lines@[a]@) by {
                        if url_known(before, lines@[a]@) {
                            let j = choose|j: int| 0 <= j < before.len() && #[trigger] before[j]@ == lines@[a]@;
                            assert(r@[j] == before[j]);
                        }
                    }
                    assert(r@[r@.len() - 1]@ == lines@[i as int]@);
                }
            }
            i = i + 1;
        }
        r
    }

    /// Withdraws up to `n` proxies: with `m = min(n, len)`, walks the pool
    /// from the lowest latency, keeping each proxy when no more are left than
    /// are still wanted or when its draw (from `draws`, one per proxy walked)
    /// keeps it, until `m` are kept. The ones passed over stay in the pool.
    /// The withdrawn URLs are outstanding until taken back; what the pool
    /// holds or has handed out does not change.
    pub fn get_clients_with(&mut self, n: usize, draws: &[u32]) -> (r: Vec<ProxyClient<C>>)
        requires
            old(self).wf(),
            draws@.len() >= old(self).proxies@.len(),
        ensures
            final(self).wf(),
            final(self).proxy_urls == old(self).proxy_urls,
            final(self).outstanding@ == old(self).outstanding@.union(pool_urls(r@)),
            final(self).live() == old(self).live(),
            ({
                let len = old(self).proxies@.len();
                let m = if n < len { n as nat } else { len };
                let f = selection(len, m, m as int, draws@);
                &&& r@.len() == m
                &&& r@ == chosen(old(self).proxies@, f)
                &&& final(self).proxies@ == passed(old(self).proxies@, f) + old(self).proxies@.skip(f.len() as int)
            }),
    {
        let ghost orig = self.proxies@;
        let ghost old_out = self.outstanding@;
        let ghost old_live = self.live();
        let len0 = self.proxies.len();
        let m: usize = if n < len0 { n } else { len0 };
        let ghost f_all = selection(len0 as nat, m as nat, m as int, draws@);
        let ghost mut done: Seq<bool> = seq![];
        let mut clients: Vec<ProxyClient<C>> = Vec::new();
        let mut rejected: Vec<ProxyClient<C>> = Vec::new();
        let mut i: usize = 0;
        proof {
            lemma_selection_len(len0 as nat, m as nat, m as int, draws@);
            assert(draws@.skip(0) =~= draws@);
            assert(done + f_all =~= f_all);
            assert(orig.skip(0) =~= orig);
            assert(rejected@ + self.proxies@ =~= orig);
            assert(pool_urls(clients@) =~= Set::empty());
            assert(pool_urls(rejected@) =~= Set::empty());
        }
        while clients.len() < m && self.proxies.len() > 0
            invariant
                m <= len0,
                len0 == orig.len(),
                draws@.len() >= len0,
                i == done.len(),
                i <= len0,
                clients@.len() <= m,
                clients@.len() + self.proxies@.len() >= m,
                self.proxies@ == orig.skip(i as int),
                clients@ == chosen(orig, done),
                rejected@ == passed(orig, done),
                sorted_by_latency(rejected@ + self.proxies@),
                distinct_urls(rejected@ + self.proxies@),
                forall|x: int, y: int| 0 <= x < clients@.len() && 0 <= y < (rejected@ + self.proxies@).len()
                    ==> clients@[x].url@ != (rejected@ + self.proxies@)[y].url@,
                pool_urls(clients@).union(pool_urls(rejected@ + self.proxies@)) == pool_urls(orig),
                self.proxy_urls == old(self).proxy_urls,
                self.outstanding == old(self).outstanding,
                done + selection((len0 - i) as nat, (m - clients@.len()) as nat, m as int, draws@.skip(i as int)) == f_all,
            decreases len0 - i,
        {
            let n_remaining = m - clients.len();
            let r = draws[i];
            let ghost before_all = rejected@ + self.proxies@;
            let ghost before_clients = clients@;
            let ghost rl = rejected@.len() as int;
            let c = self.proxies.remove(0);
            assert((r as int) * (m as int) <= 0xFFFF_FFFFint * 0xFFFF_FFFF_FFFF_FFFFint) by (nonlinear_arith)
                requires
                    r <= 0xFFFF_FFFFint,
                    m <= 0xFFFF_FFFF_FFFF_FFFFint,
            ;
            let keep: bool = self.proxies.len() + 1 <= n_remaining || (r as u128) * (m as u128) < 2 * 0x1_0000_0000u128;
            proof {
                let k = (len0 - i) as nat;
                let need = (m - clients@.len()) as nat;
                let d = draws@.skip(i as int);
                assert(d[0] == r);
                assert(d.drop_first() =~= draws@.skip(i + 1));
                assert(selection(k, need, m as int, d) == seq![keep] + selection(
                    (k - 1) as nat,
                    if keep { (need - 1) as nat } else { need },
                    m as int,
                    d.drop_first(),
                ));
                assert(done + seq![keep] + selection((k - 1) as nat, if keep { (need - 1) as nat } else { need }, m as int, draws@.skip(i + 1)) =~= f_all);
                assert(done.push(keep).drop_last() =~= done);
                assert(c == orig[i as int]);
                assert(self.proxies@ =~= orig.skip(i + 1));
                assert(before_all[rl] == c);
            }
            if keep {
                clients.push(c);
                proof {
                    let a = rejected@ + self.proxies@;
                    assert forall|x: int| 0 <= x < a.len() implies #[trigger] a[x] == before_all[if x < rl { x } else { x + 1 }] by {}
                    assert(sorted_by_latency(a)) by {
                        assert forall|x: int, y: int| 0 <= x < y < a.len() implies a[x].latency_ms <= a[y].latency_ms by {
                            let xi = if x < rl { x } else { x + 1 };
                            let yi = if y < rl { y } else { y + 1 };
                            assert(a[x] == before_all[xi]);
                            assert(a[y] == before_all[yi]);
                        }
                    }
                    assert(distinct_urls(a)) by {
                        assert forall|x: int, y: int| 0 <= x < y < a.len() implies a[x].url@ != a[y].url@ by {
                            let xi = if x < rl { x } else { x + 1 };
                            let yi = if y < rl { y } else { y + 1 };
                            assert(a[x] == before_all[xi]);
                            assert(a[y] == before_all[yi]);
                        }
                    }
                    assert forall|x: int, y: int| 0 <= x < clients@.len() && 0 <= y < a.len()
                        implies clients@[x].url@ != a[y].url@ by {
                        let yi = if y < rl { y } else { y + 1 };
                        assert(a[y] == before_all[yi]);
                        if x < before_clients.len() {
                            assert(clients@[x] == before_clients[x]);
                        } else {
                            assert(clients@[x] == before_all[rl]);
                            assert(yi != rl);
                        }
                    }
                    let t = rejected@;
                    let rest = self.proxies@;
                    assert(before_all =~= t + seq![c] + rest);
                    assert(a =~= t + rest);
                    lemma_pool_urls_concat(t, seq![c]);
                    lemma_pool_urls_concat(t + seq![c], rest);
                    lemma_pool_urls_concat(t, rest);
                    lemma_pool_urls_concat(before_clients, seq![c]);
                    lemma_pool_urls_single(c);
                    assert(clients@ =~= before_clients + seq![c]);
                    assert(pool_urls(clients@).union(pool_urls(a)) =~= pool_urls(before_clients).union(pool_urls(before_all)));
                }
            } else {
                rejected.push(c);
                proof {
                    assert(rejected@ + self.proxies@ =~= before_all);
                }
            }
            proof {
                done = done.push(keep);
            }
            i = i + 1;
        }
        proof {
            let k = (len0 - i) as nat;
            let need = (m - clients@.len()) as nat;
            assert(selection(k, need, m as int, draws@.skip(i as int)) =~= seq![]);
            assert(done =~= f_all);
        }
        let mut rest = rejected;
        rest.append(&mut self.proxies);
        self.proxies = rest;
        self.outstanding = Ghost(old_out.union(pool_urls(clients@)));
        proof {
            let a = self.proxies@;
            assert(pool_urls(a).disjoint(self.outstanding@)) by {
                assert forall|u: Seq<char>| pool_urls(a).contains(u) implies !self.outstanding@.contains(u) by {
                    let y = choose|y: int| 0 <= y < a.len() && #[trigger] a[y].url@ == u;
                    assert(pool_urls(orig).contains(u));
                    if pool_urls(clients@).contains(u) {
                        let x = choose|x: int| 0 <= x < clients@.len() && #[trigger] clients@[x].url@ == u;
                        assert(clients@[x].url@ != a[y].url@);
                    }
                }
            }
            assert(self.live() =~= old_live);
        }
        clients
    }

    /// Withdraws up to `n` proxies as `get_clients_with` does, with draws
    /// from the operating system's generator. All `min(n, len)` wanted are
    /// withdrawn, the rest stays ordered.
    pub fn get_clients(&mut self, n: usize) -> (r: Vec<ProxyClient<C>>)
        requires
            old(self).wf(),
        ensures
            final(self).wf(),
            final(self).proxy_urls == old(self).proxy_urls,
            final(self).outstanding@ == old(self).outstanding@.union(pool_urls(r@)),
            final(self).live() == old(self).live(),
            ({
                let len = old(self).proxies@.len();
                let m = if n < len { n as nat } else { len };
                r@.len() == m
            }),
            exists|draws: Seq<u32>| #[trigger] draws.len() >= old(self).proxies@.len()
                && r@ == chosen(old(self).proxies@, picks(old(self).proxies@.len(), n, draws))
                && final(self).proxies@ == passed(old(self).proxies@, picks(old(self).proxies@.len(), n, draws))
                    + old(self).proxies@.skip(picks(old(self).proxies@.len(), n, draws).len() as int),
    {
        let mut draws: Vec<u32> = Vec::new();
        let mut i: usize = 0;
        while i < self.proxies.len()
            invariant
                draws@.len() == i,
                i <= self.proxies@.len(),
            decreases self.proxies@.len() - i,
        {
            draws.push(os_random_u32());
            i = i + 1;
        }
        let ghost before = self.proxies@;
        let r = self.get_clients_with(n, draws.as_slice());
        proof {
            let len = before.len();
            let m = if n < len { n as nat } else { len };
            let f = selection(len, m, m as int, draws@);
            assert(f == picks(len, n, draws@));
            assert(before == old(self).proxies@);
            assert(draws@.len() >= len);
            assert(r@ == chosen(before, f));
            assert(self.proxies@ == passed(before, f) + before.skip(f.len() as int));
        }
        r
    }

    /// Takes a withdrawn proxy back at clock reading `now_ms`: it rejoins the
    /// pool in latency order unless it has gone bad, in which case it is
    /// dropped. Returns whether it rejoined. What the pool holds or has handed
    /// out loses at most this proxy, and only when it is dropped.
    pub fn return_client(&mut self, client: ProxyClient<C>, now_ms: u64) -> (kept: bool)
        requires
            old(self).wf(),
            old(self).outstanding@.contains(client.url@),
        ensures
            final(self).wf(),
            final(self).proxy_urls == old(self).proxy_urls,
            final(self).outstanding@ == old(self).outstanding@.remove(client.url@),
            kept == !(client.fail_count > BAD_FAIL_COUNT && now_ms >= client.last_success_ms
                && (now_ms - client.last_success_ms) / 1000 > BAD_SILENCE_SECS),
            kept ==> final(self).live() == old(self).live(),
            !kept ==> final(self).live() == old(self).live().remove(client.url@),
            kept ==> exists|k: int| 0 <= k <= old(self).proxies@.len()
                && final(self).proxies@ == old(self).proxies@.insert(k, client),
            !kept ==> final(self).proxies == old(self).proxies,
    {
        let ghost u = client.url@;
        let ghost old_live = self.live();
        let ghost old_out = self.outstanding@;
        assert(!pool_urls(self.proxies@).contains(u));
        self.outstanding = Ghost(old_out.remove(u));
        if client.bad(now_ms) {
            assert(self.live() =~= old_live.remove(u));
            false
        } else {
            self.insert_sorted(client);
            assert(self.live() =~= old_live);
            true
        }
    }
}


} // verus!
