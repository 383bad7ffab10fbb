use vstd::prelude::*;
use vstd::utf8::encode_utf8;
use std::collections::VecDeque;
use crate::codec::{base64_encode, base64_standard, hex_encode, hex_lower, is_digest_hex, is_digest_hex_str, str_eq};
use crate::digest::{claim_digest, claim_message, claim_preimage, md5, md5_of};
use crate::entropy::os_random_u32;
use crate::error::{is_fatal, Error, RequestFailure};
use crate::util::{hash_starts_n_zeroes, hex_has_zero_prefix, lemma_zero_nibbles_iff_zero_hex, timer_expired, Timer};

verus! {

/// Age in milliseconds after which a request no longer counts against a
/// rate window.
pub const RATE_WINDOW_MS: u64 = 60_000;
/// Direct head requests allowed per window.
pub const HEAD_REQUEST_CAP: usize = 5;
/// Direct difficulty requests allowed per window.
pub const DIFFICULTY_REQUEST_CAP: usize = 2;
/// Direct claims allowed per window.
pub const CLAIM_REQUEST_CAP: usize = 10;
/// Difficulties from this value up are implausible and ignored.
pub const DIFFICULTY_LIMIT: u64 = 16;
/// The difficulty a live tracker assumes before the service has answered.
pub const INITIAL_DIFFICULTY: u64 = 8;
/// The head a live tracker assumes before the service has answered.
pub const INITIAL_HEAD: &'static str = "00000000008c70b237c12e2c25d278cc";
/// Proxies asked in turn for one background poll.
pub const POLL_PROXY_COUNT: usize = 8;
/// Proxies tried in turn for one claim.
pub const CLAIM_PROXY_COUNT: usize = 6;

/// What is left of a window of request times (newest first) once the
/// entries older than `RATE_WINDOW_MS` at `now` are dropped from the old end.
pub open spec fn expire(s: Seq<u64>, now: u64) -> Seq<u64>
    decreases s.len(),
{
    if s.len() > 0 && now as int - s.last() as int > RATE_WINDOW_MS as int {
        expire(s.drop_last(), now)
    } else {
        s
    }
}

/// Whether a window's times run from newest to oldest and none lies after
/// `now`.
pub open spec fn window_ordered(s: Seq<u64>, now: u64) -> bool {
    &&& forall|i: int, j: int| 0 <= i < j < s.len() ==> s[i] >= s[j]
    &&& forall|i: int| 0 <= i < s.len() ==> s[i] <= now
}

proof fn lemma_expire_fresh(s: Seq<u64>, now: u64)
    requires
        window_ordered(s, now),
    ensures
        expire(s, now).len() <= s.len(),
        expire(s, now) == s.subrange(0, expire(s, now).len() as int),
        forall|i: int| 0 <= i < expire(s, now).len() ==>
            now as int - #[trigger] expire(s, now)[i] as int <= RATE_WINDOW_MS as int,
    decreases s.len(),
{
    if s.len() > 0 && now as int - s.last() as int > RATE_WINDOW_MS as int {
        let d = s.drop_last();
        assert(window_ordered(d, now));
        lemma_expire_fresh(d, now);
        assert(expire(d, now) == s.subrange(0, expire(d, now).len() as int));
    } else {
        assert(s == s.subrange(0, s.len() as int));
        if s.len() > 0 {
            assert forall|i: int| 0 <= i < s.len() implies now as int - #[trigger] s[i] as int
                <= RATE_WINDOW_MS as int by {
                assert(s[i] >= s[s.len() - 1]);
            }
        }
    }
}

/// A sliding window of the times (milliseconds, newest first) at which a
/// client spent a request.
pub struct RateWindow {
    pub stamps: VecDeque<u64>,
}

impl RateWindow {
    pub fn new() -> (w: RateWindow)
        ensures
            w.stamps@.len() == 0,
    {
        RateWindow { stamps: VecDeque::new() }
    }

    /// Spends a slot at `now` if fewer than `cap` requests remain in the
    /// window once the stale ones are dropped. Every entry left is at most
    /// `RATE_WINDOW_MS` old, and after a spent slot there are at most `cap`.
    pub fn try_acquire(&mut self, now: u64, cap: usize) -> (r: bool)
        requires
            window_ordered(old(self).stamps@, now),
        ensures
            window_ordered(final(self).stamps@, now),
            r == (expire(old(self).stamps@, now).len() < cap),
            final(self).stamps@ == if r {
                seq![now] + expire(old(self).stamps@, now)
            } else {
                expire(old(self).stamps@, now)
            },
            r ==> final(self).stamps@.len() <= cap,
            forall|i: int| 0 <= i < final(self).stamps@.len() ==>
                now as int - #[trigger] final(self).stamps@[i] as int <= RATE_WINDOW_MS as int,
    {
        proof {
            lemma_expire_fresh(self.stamps@, now);
        }
        let ghost s0 = self.stamps@;
        loop
            invariant
                window_ordered(s0, now),
                window_ordered(self.stamps@, now),
                expire(self.stamps@, now) == expire(s0, now),
            ensures
                self.stamps@ == expire(s0, now),
                window_ordered(self.stamps@, now),
            decreases self.stamps@.len(),
        {
            let n = self.stamps.len();
            if n == 0 {
                break;
            }
            let t = self.stamps[n - 1];
            if now - t > RATE_WINDOW_MS {
                let ghost before = self.stamps@;
                self.stamps.pop_back();
                assert(self.stamps@ == before.drop_last());
            } else {
                assert(expire(self.stamps@, now) == self.stamps@);
                break;
            }
        }
        if self.stamps.len() < cap {
            self.stamps.push_front(now);
            assert forall|i: int, j: int| 0 <= i < j < self.stamps@.len() implies self.stamps@[i]
                >= self.stamps@[j] by {
                if i > 0 {
                    assert(self.stamps@[i] == expire(s0, now)[i - 1]);
                }
            }
            true
        } else {
            false
        }
    }
}

/// Whether a tracker answers at once, or the caller is to fetch the value
/// from the service and hand the outcome back.
#[derive(Debug)]
pub enum Plan<T> {
    Ready(T),
    Fetch,
}

/// A parsed claim reply body.
#[derive(Debug)]
pub enum ClaimReply {
    Success(String),
    Fail(String),
}

/// The JSON body of a claim request.
#[derive(Debug)]
pub struct ClaimCoinReq {
    pub coin_blob: String,
    pub id_of_miner: String,
    pub hash_of_last_coin: String,
}

/// Where a claim stands after one attempt.
#[derive(Debug)]
pub enum ClaimStep {
    /// The claim is settled with this outcome.
    Done(Result<(), Error>),
    /// The attempt failed in a way another path may not; try the next one.
    Retry(Error),
}

/// The head a fake tracker starts from: the MD5 of the identity and a
/// little-endian nonce, with its first four bytes zeroed, in hex.
pub open spec fn fake_seed_head(miner_id: Seq<u8>, nonce: u32) -> Seq<char> {
    let d = md5_of(miner_id + vstd::bytes::spec_u32_to_le_bytes(nonce));
    hex_lower(d.update(0, 0u8).update(1, 0u8).update(2, 0u8).update(3, 0u8))
}

/// The tracker's state: the identity, the fake head when there is no
/// service, the freshest head and difficulty observed, and the direct
/// client's rate window.
pub struct Tracker {
    pub miner_id: String,
    pub fake_last_coin: Option<String>,
    pub last_coin: String,
    pub difficulty: u64,
    pub client_reqs: RateWindow,
}

impl Tracker {
    /// A live tracker for `miner_id`, assuming `INITIAL_HEAD` and
    /// `INITIAL_DIFFICULTY` until the service answers.
    pub fn new(miner_id: String) -> (t: Tracker)
        ensures
            t.miner_id == miner_id,
            t.fake_last_coin is None,
            t.last_coin@ == INITIAL_HEAD@,
            t.difficulty == INITIAL_DIFFICULTY,
            t.client_reqs.stamps@.len() == 0,
    {
        Tracker {
            miner_id,
            fake_last_coin: None,
            last_coin: String::from_str(INITIAL_HEAD),
            difficulty: INITIAL_DIFFICULTY,
            client_reqs: RateWindow::new(),
        }
    }

    /// A fake tracker whose head is derived from the identity and `nonce`.
    /// That head begins with eight zero hex digits.
    pub fn new_fake_seeded(miner_id: String, nonce: u32) -> (r: Result<Tracker, Error>)
        ensures
            r matches Ok(t) ==> {
                &&& t.miner_id == miner_id
                &&& t.fake_last_coin matches Some(h) && h@ == fake_seed_head(encode_utf8(miner_id@), nonce)
                    && hex_has_zero_prefix(h@, 8) && is_digest_hex(h@)
                &&& t.difficulty == INITIAL_DIFFICULTY
                &&& t.client_reqs.stamps@.len() == 0
            },
            r matches Err(e) ==> e is OpenSSL,
    {
        proof {
            vstd::bytes::lemma_auto_spec_u32_to_from_le_bytes();
        }
        let mut seed = miner_id.as_str().as_bytes_vec();
        let n = vstd::bytes::u32_to_le_bytes(nonce);
        seed.extend_from_slice(n.as_slice());
        assert(seed@ == encode_utf8(miner_id@) + vstd::bytes::spec_u32_to_le_bytes(nonce));
        let mut d = match md5(seed.as_slice()) {
            Ok(d) => d,
            Err(e) => return Err(Error::OpenSSL(e)),
        };
        let ghost d0 = d@;
        d.set(0, 0);
        d.set(1, 0);
        d.set(2, 0);
        d.set(3, 0);
        assert(d@ == d0.update(0, 0u8).update(1, 0u8).update(2, 0u8).update(3, 0u8));
        let h = hex_encode(d.as_slice());
        proof {
            crate::codec::lemma_hex_round_trip(d@);
            assert forall|i: int| 0 <= i < 8 implies h@[i] == '0' by {
                assert(d@[i / 2] == 0);
            }
        }
        let mut t = Tracker::new(miner_id);
        t.fake_last_coin = Some(h);
        Ok(t)
    }

    /// A fake tracker whose head is derived from the identity and a nonce
    /// from the operating system's generator.
    pub fn new_fake(miner_id: String) -> (r: Result<Tracker, Error>)
        ensures
            r matches Ok(t) ==> {
                &&& t.miner_id == miner_id
                &&& t.fake_last_coin matches Some(h) && hex_has_zero_prefix(h@, 8) && is_digest_hex(h@)
                    && exists|n: u32| h@ == fake_seed_head(encode_utf8(miner_id@), n)
                &&& t.difficulty == INITIAL_DIFFICULTY
                &&& t.client_reqs.stamps@.len() == 0
            },
            r matches Err(e) ==> e is OpenSSL,
    {
        let nonce = os_random_u32();
        Tracker::new_fake_seeded(miner_id, nonce)
    }

    /// The miner's identity.
    pub fn id(&self) -> (s: &str)
        ensures
            s@ == self.miner_id@,
    {
        self.miner_id.as_str()
    }

    /// Whether this tracker fakes the service.
    pub fn is_fake(&self) -> (r: bool)
        ensures
            r == self.fake_last_coin is Some,
    {
        self.fake_last_coin.is_some()
    }

    /// Well-formed at `now`: the rate window is ordered and none of its times
    /// lies after `now`.
    pub open spec fn ready_at(&self, now: u64) -> bool {
        window_ordered(self.client_reqs.stamps@, now)
    }

    /// The first half of reading the head at `now`: a fake tracker answers
    /// with its head; a live one spends a direct slot (at most
    /// `HEAD_REQUEST_CAP` a window) and asks for a fetch, or answers with the
    /// head it last observed when no slot is free.
    pub fn plan_last_coin(&mut self, now: u64) -> (p: Plan<String>)
        requires
            old(self).ready_at(now),
        ensures
            final(self).ready_at(now),
            final(self).last_coin == old(self).last_coin,
            final(self).fake_last_coin == old(self).fake_last_coin,
            final(self).difficulty == old(self).difficulty,
            final(self).miner_id == old(self).miner_id,
            old(self).fake_last_coin matches Some(h) ==> p == Plan::Ready(h)
                && final(self).client_reqs == old(self).client_reqs,
            old(self).fake_last_coin is None ==> {
                if expire(old(self).client_reqs.stamps@, now).len() < HEAD_REQUEST_CAP {
                    &&& p is Fetch
                    &&& final(self).client_reqs.stamps@ == seq![now] + expire(old(self).client_reqs.stamps@, now)
                } else {
                    &&& p == Plan::Ready(old(self).last_coin)
                    &&& final(self).client_reqs.stamps@ == expire(old(self).client_reqs.stamps@, now)
                }
            },
    {
        match &self.fake_last_coin {
            Some(h) => Plan::Ready(h.clone()),
            None => {
                if self.client_reqs.try_acquire(now, HEAD_REQUEST_CAP) {
                    Plan::Fetch
                } else {
                    Plan::Ready(self.last_coin.clone())
                }
            },
        }
    }

    /// The second half of reading the head: a fetched head that is 32
    /// lowercase hex digits becomes the observed head and is returned; on
    /// any failure the head last observed is returned.
    pub fn finish_last_coin(&mut self, fetched: Result<String, Error>) -> (h: String)
        ensures
            final(self).fake_last_coin == old(self).fake_last_coin,
            final(self).difficulty == old(self).difficulty,
            final(self).client_reqs == old(self).client_reqs,
            final(self).miner_id == old(self).miner_id,
            final(self).last_coin == h,
            h == match fetched {
                Ok(c) => if is_digest_hex(c@) { c } else { old(self).last_coin },
                Err(_) => old(self).last_coin,
            },
    {
        match fetched {
            Ok(c) => {
                if is_digest_hex_str(c.as_str()) {
                    self.last_coin = c.clone();
                    c
                } else {
                    self.last_coin.clone()
                }
            },
            Err(_) => self.last_coin.clone(),
        }
    }

    /// Records a head found by the background poller, if it is 32 lowercase
    /// hex digits.
    pub fn record_polled_head(&mut self, coin: String) -> (accepted: bool)
        ensures
            accepted == is_digest_hex(coin@),
            final(self).last_coin == if accepted { coin } else { old(self).last_coin },
            final(self).fake_last_coin == old(self).fake_last_coin,
            final(self).difficulty == old(self).difficulty,
            final(self).client_reqs == old(self).client_reqs,
            final(self).miner_id == old(self).miner_id,
    {
        if is_digest_hex_str(coin.as_str()) {
            self.last_coin = coin;
            true
        } else {
            false
        }
    }

    /// The first half of reading the difficulty at `now`: a fake tracker
    /// answers the difficulty it checks claims against; a live one spends a direct slot (at most
    /// `DIFFICULTY_REQUEST_CAP` a window) and asks for a fetch, or answers
    /// with the difficulty it last observed.
    pub fn plan_difficulty(&mut self, now: u64) -> (p: Plan<u64>)
        requires
            old(self).ready_at(now),
        ensures
            final(self).ready_at(now),
            final(self).last_coin == old(self).last_coin,
            final(self).fake_last_coin == old(self).fake_last_coin,
            final(self).difficulty == old(self).difficulty,
            final(self).miner_id == old(self).miner_id,
            old(self).fake_last_coin is Some ==> p == Plan::Ready(old(self).difficulty)
                && final(self).client_reqs == old(self).client_reqs,
            old(self).fake_last_coin is None ==> {
                if expire(old(self).client_reqs.stamps@, now).len() < DIFFICULTY_REQUEST_CAP {
                    &&& p is Fetch
                    &&& final(self).client_reqs.stamps@ == seq![now] + expire(old(self).client_reqs.stamps@, now)
                } else {
                    &&& p == Plan::Ready(old(self).difficulty)
                    &&& final(self).client_reqs.stamps@ == expire(old(self).client_reqs.stamps@, now)
                }
            },
    {
        if self.fake_last_coin.is_some() {
            Plan::Ready(self.difficulty)
        } else if self.client_reqs.try_acquire(now, DIFFICULTY_REQUEST_CAP) {
            Plan::Fetch
        } else {
            Plan::Ready(self.difficulty)
        }
    }

    /// The second half of reading the difficulty: a fetched value below
    /// `DIFFICULTY_LIMIT` becomes the observed difficulty and is returned;
    /// otherwise the difficulty last observed is returned.
    pub fn finish_difficulty(&mut self, fetched: Result<u64, Error>) -> (d: u64)
        ensures
            final(self).fake_last_coin == old(self).fake_last_coin,
            final(self).last_coin == old(self).last_coin,
            final(self).client_reqs == old(self).client_reqs,
            final(self).miner_id == old(self).miner_id,
            final(self).difficulty == d,
            d == match fetched {
                Ok(n) => if n < DIFFICULTY_LIMIT { n } else { old(self).difficulty },
                Err(_) => old(self).difficulty,
            },
    {
        match fetched {
            Ok(n) => {
                if n < DIFFICULTY_LIMIT {
                    self.difficulty = n;
                    n
                } else {
                    self.difficulty
                }
            },
            Err(_) => self.difficulty,
        }
    }

    /// Records a difficulty found by the background poller, if it is below
    /// `DIFFICULTY_LIMIT`.
    pub fn record_polled_difficulty(&mut self, num_zeros: u64) -> (accepted: bool)
        ensures
            accepted == (num_zeros < DIFFICULTY_LIMIT),
            final(self).difficulty == if accepted { num_zeros } else { old(self).difficulty },
            final(self).fake_last_coin == old(self).fake_last_coin,
            final(self).last_coin == old(self).last_coin,
            final(self).client_reqs == old(self).client_reqs,
            final(self).miner_id == old(self).miner_id,
    {
        if num_zeros < DIFFICULTY_LIMIT {
            self.difficulty = num_zeros;
            true
        } else {
            false
        }
    }

    /// Checks a claim against the fake service: the claimed head must be the
    /// fake head; the fake service then computes the claim digest itself,
    /// which must begin with as many zero hex digits as the observed
    /// difficulty and equal the claimed `hash`; it then becomes the new fake
    /// head.
    pub fn claim_fake(&mut self, blob: &[u8], previous_coin: &str, hash: &str) -> (r: Result<(), Error>)
        requires
            old(self).fake_last_coin is Some,
        ensures
            final(self).miner_id == old(self).miner_id,
            final(self).difficulty == old(self).difficulty,
            final(self).last_coin == old(self).last_coin,
            final(self).client_reqs == old(self).client_reqs,
            ({
                let f = old(self).fake_last_coin->Some_0;
                let pre = claim_preimage(encode_utf8(f@), blob@, encode_utf8(old(self).miner_id@));
                let h = hex_lower(md5_of(pre));
                if f@ != previous_coin@ {
                    &&& r matches Err(Error::Msg(m)) && m@ == "Previous coin does not match!"@
                    &&& final(self).fake_last_coin == old(self).fake_last_coin
                } else if r is Err && r->Err_0 is OpenSSL {
                    final(self).fake_last_coin == old(self).fake_last_coin
                } else if !hex_has_zero_prefix(h, old(self).difficulty as int) {
                    &&& r matches Err(Error::Msg(m)) && m@ == "Invalid Coin Hash: "@ + h + " Coin: "@ + hex_lower(pre)
                    &&& final(self).fake_last_coin == old(self).fake_last_coin
                } else if hash@ != h {
                    &&& r matches Err(Error::Msg(m)) && m@ == "Calculated hash "@ + h
                        + " does not match given hash "@ + hash@ + "!"@
                    &&& final(self).fake_last_coin == old(self).fake_last_coin
                } else {
                    &&& r is Ok
                    &&& final(self).fake_last_coin matches Some(n) && n@ == h
                }
            }),
    {
        let fake = match &self.fake_last_coin {
            Some(f) => f.clone(),
            None => return Ok(()),
        };
        if !str_eq(fake.as_str(), previous_coin) {
            return Err(Error::Msg(String::from_str("Previous coin does not match!")));
        }
        let msg = claim_message(fake.as_str(), blob, self.miner_id.as_str());
        let d = match md5(msg.as_slice()) {
            Ok(d) => d,
            Err(e) => return Err(Error::OpenSSL(e)),
        };
        let h_hex = hex_encode(d.as_slice());
        proof {
            lemma_zero_nibbles_iff_zero_hex(d@, self.difficulty as int);
        }
        if !hash_starts_n_zeroes(d.as_slice(), self.difficulty) {
            let coin = hex_encode(msg.as_slice());
            let mut m = String::from_str("Invalid Coin Hash: ");
            m.append(h_hex.as_str());
            m.append(" Coin: ");
            m.append(coin.as_str());
            return Err(Error::Msg(m));
        }
        if !str_eq(h_hex.as_str(), hash) {
            let mut m = String::from_str("Calculated hash ");
            m.append(h_hex.as_str());
            m.append(" does not match given hash ");
            m.append(hash);
            m.append("!");
            return Err(Error::Msg(m));
        }
        self.fake_last_coin = Some(h_hex);
        Ok(())
    }

    /// The body of a live claim of `blob` on top of `previous_coin`.
    pub fn claim_body(&self, blob: &[u8], previous_coin: String) -> (req: ClaimCoinReq)
        ensures
            req.coin_blob@ == base64_standard(blob@),
            req.id_of_miner == self.miner_id,
            req.hash_of_last_coin == previous_coin,
    {
        ClaimCoinReq {
            coin_blob: base64_encode(blob),
            id_of_miner: self.miner_id.clone(),
            hash_of_last_coin: previous_coin,
        }
    }

    /// Spends a direct claim slot at `now` (at most `CLAIM_REQUEST_CAP` a
    /// window), if one is free.
    pub fn claim_direct_allowed(&mut self, now: u64) -> (r: bool)
        requires
            old(self).ready_at(now),
        ensures
            final(self).ready_at(now),
            r == (expire(old(self).client_reqs.stamps@, now).len() < CLAIM_REQUEST_CAP),
            final(self).client_reqs.stamps@ == if r {
                seq![now] + expire(old(self).client_reqs.stamps@, now)
            } else {
                expire(old(self).client_reqs.stamps@, now)
            },
            forall|i: int| 0 <= i < final(self).client_reqs.stamps@.len() ==>
                now as int - #[trigger] final(self).client_reqs.stamps@[i] as int <= RATE_WINDOW_MS as int,
            final(self).miner_id == old(self).miner_id,
            final(self).fake_last_coin == old(self).fake_last_coin,
            final(self).last_coin == old(self).last_coin,
            final(self).difficulty == old(self).difficulty,
    {
        self.client_reqs.try_acquire(now, CLAIM_REQUEST_CAP)
    }

    /// Records a claim the service accepted: its digest is the new head.
    pub fn record_claimed(&mut self, hash: &str)
        ensures
            final(self).last_coin@ == hash@,
            final(self).miner_id == old(self).miner_id,
            final(self).fake_last_coin == old(self).fake_last_coin,
            final(self).difficulty == old(self).difficulty,
            final(self).client_reqs == old(self).client_reqs,
    {
        self.last_coin = String::from_str(hash);
    }
}


/// Whether an HTTP status is a success (2xx).
pub open spec fn is_success(status: u16) -> bool {
    200 <= status < 300
}

/// The outcome of a head request that got the HTTP status `status` (whose
/// line reads `status_line`) and, on success, the parsed body's `coin_id`.
/// 400, 429 and 409 mean the server is busy.
pub fn head_response(status: u16, body: Result<String, RequestFailure>, status_line: &str) -> (r: Result<String, Error>)
    ensures
        is_success(status) ==> r == match body {
            Ok(c) => Ok::<String, Error>(c),
            Err(f) => Err(Error::Request(f)),
        },
        !is_success(status) && (status == 400 || status == 429 || status == 409) ==> r == Err::<String, Error>(Error::ServerBusy),
        !is_success(status) && !(status == 400 || status == 429 || status == 409) ==> (r matches Err(Error::Msg(m)) && m@ == "Get Last Coin Failed Http "@ + status_line@),
{
    if 200 <= status && status < 300 {
        match body {
            Ok(c) => Ok(c),
            Err(f) => Err(Error::Request(f)),
        }
    } else if status == 400 || status == 429 || status == 409 {
        Err(Error::ServerBusy)
    } else {
        let mut m = String::from_str("Get Last Coin Failed Http ");
        m.append(status_line);
        Err(Error::Msg(m))
    }
}

/// The outcome of a difficulty request, as `head_response` for the parsed
/// `number_of_leading_zeros`.
pub fn difficulty_response(status: u16, body: Result<u64, RequestFailure>, status_line: &str) -> (r: Result<u64, Error>)
    ensures
        is_success(status) ==> r == match body {
            Ok(n) => Ok::<u64, Error>(n),
            Err(f) => Err(Error::Request(f)),
        },
        !is_success(status) && (status == 400 || status == 429 || status == 409) ==> r == Err::<u64, Error>(Error::ServerBusy),
        !is_success(status) && !(status == 400 || status == 429 || status == 409) ==> (r matches Err(Error::Msg(m)) && m@ == "Get Difficulty Failed Http "@ + status_line@),
{
    if 200 <= status && status < 300 {
        match body {
            Ok(n) => Ok(n),
            Err(f) => Err(Error::Request(f)),
        }
    } else if status == 400 || status == 429 || status == 409 {
        Err(Error::ServerBusy)
    } else {
        let mut m = String::from_str("Get Difficulty Failed Http ");
        m.append(status_line);
        Err(Error::Msg(m))
    }
}

/// The outcome of a claim request: a success body is `Ok`; a success status
/// with a `fail` body, or with no parsable body, is an error; 400 rejects the
/// coin with the body's `fail` detail (empty when there is none); 429 and 409
/// mean the server is busy; any other status is described.
pub fn claim_response(status: u16, body: Result<ClaimReply, RequestFailure>, status_line: &str) -> (r: Result<(), Error>)
    ensures
        is_success(status) ==> match body {
            Ok(ClaimReply::Success(_)) => r is Ok,
            Ok(ClaimReply::Fail(f)) => r matches Err(Error::Msg(m)) && m@ == "Claim Coin failed with error: "@ + f@,
            Err(f) => r == Err::<(), Error>(Error::Request(f)),
        },
        !is_success(status) && status == 400 ==> match body {
            Ok(ClaimReply::Fail(f)) => r == Err::<(), Error>(Error::BadCoin(f)),
            _ => r matches Err(Error::BadCoin(m)) && m@.len() == 0,
        },
        !is_success(status) && (status == 429 || status == 409) ==> r == Err::<(), Error>(Error::ServerBusy),
        !is_success(status) && !(status == 400 || status == 429 || status == 409) ==> (r matches Err(Error::Msg(m)) && m@ == "Claim Coin failed Http "@ + status_line@),
{
    if 200 <= status && status < 300 {
        match body {
            Ok(ClaimReply::Success(_)) => Ok(()),
            Ok(ClaimReply::Fail(f)) => {
                let mut m = String::from_str("Claim Coin failed with error: ");
                m.append(f.as_str());
                Err(Error::Msg(m))
            },
            Err(f) => Err(Error::Request(f)),
        }
    } else if status == 400 {
        match body {
            Ok(ClaimReply::Fail(f)) => Err(Error::BadCoin(f)),
            _ => Err(Error::BadCoin(String::new())),
        }
    } else if status == 429 || status == 409 {
        Err(Error::ServerBusy)
    } else {
        let mut m = String::from_str("Claim Coin failed Http ");
        m.append(status_line);
        Err(Error::Msg(m))
    }
}

/// What a direct claim attempt settles: success and fatal errors end the
/// claim; other errors pass it on to the proxies.
pub fn direct_claim_step(result: Result<(), Error>) -> (s: ClaimStep)
    ensures
        match result {
            Ok(()) => s == ClaimStep::Done(Ok(())),
            Err(e) => if is_fatal(&e) { s == ClaimStep::Done(Err(e)) } else { s == ClaimStep::Retry(e) },
        },
{
    match result {
        Ok(()) => ClaimStep::Done(Ok(())),
        Err(e) => {
            if e.err_is_fatal() {
                ClaimStep::Done(Err(e))
            } else {
                ClaimStep::Retry(e)
            }
        },
    }
}

/// What a claim attempt through a proxy settles, and whether the attempt
/// counts as a success for the proxy's record: success ends the claim and
/// counts; a fatal error ends it and counts only when the service rejected
/// the coin (the proxy did its job); any other error counts and passes the
/// claim on to the next proxy.
pub fn proxy_claim_step(result: Result<(), Error>) -> (r: (bool, ClaimStep))
    ensures
        match result {
            Ok(()) => r.0 && r.1 == ClaimStep::Done(Ok(())),
            Err(e) => if is_fatal(&e) {
                r.0 == (e is BadCoin) && r.1 == ClaimStep::Done(Err(e))
            } else {
                r.0 && r.1 == ClaimStep::Retry(e)
            },
        },
{
    match result {
        Ok(()) => (true, ClaimStep::Done(Ok(()))),
        Err(e) => {
            if e.err_is_fatal() {
                let counts = match &e {
                    Error::BadCoin(_) => true,
                    _ => false,
                };
                (counts, ClaimStep::Done(Err(e)))
            } else {
                (true, ClaimStep::Retry(e))
            }
        },
    }
}

/// The error a claim ends with when every path failed, naming the last
/// failure.
pub fn all_requests_failed(last: &Error) -> (e: Error)
    ensures
        e matches Error::AllRequestsFailed(m) && m@.len() >= "All Requests Failed: "@.len(),
{
    let mut m = String::from_str("All Requests Failed: ");
    let d = last.describe();
    m.append(d.as_str());
    Error::AllRequestsFailed(m)
}

/// The error a claim starts from before any proxy was tried.
pub fn no_clients() -> (e: Error)
    ensures
        e matches Error::Msg(m) && m@ == "No Clients"@,
{
    Error::Msg(String::from_str("No Clients"))
}

/// Period of the proxy-file rescan.
pub const PROXY_REFRESH_MS: u64 = 60_000;
/// Least time between two printed poll errors.
pub const POLL_ERROR_PRINT_MS: u64 = 30_000;
/// Consecutive failed rounds after which the poller backs off.
pub const POLL_FAIL_LIMIT: u64 = 5;
/// How long the poller backs off.
pub const POLL_BACKOFF_MS: u64 = 10_000;

/// Which requests a poll round is to make.
#[derive(Debug)]
pub struct PollDue {
    pub head: bool,
    pub difficulty: bool,
}

/// What the poller does after a round.
#[derive(Debug)]
pub struct PollAfter {
    /// Print the round's error.
    pub print_error: bool,
    /// Back off for `POLL_BACKOFF_MS`.
    pub back_off: bool,
    /// Rescan the proxy file.
    pub reload_proxies: bool,
}

/// The background poller's schedule: the head every `poll_ms`, the
/// difficulty every `2 * poll_ms` (both strictly periodic), the proxy file
/// every minute, and its count of failed rounds.
pub struct Poller {
    pub head_timer: Timer,
    pub difficulty_timer: Timer,
    pub proxy_refresh_timer: Timer,
    pub print_error_timer: Timer,
    pub fail_count: u64,
}

impl Poller {
    pub fn new(poll_ms: u64) -> (p: Poller)
        ensures
            p.head_timer.period_ms == poll_ms,
            p.difficulty_timer.period_ms == if poll_ms <= u64::MAX / 2 { 2 * poll_ms } else { u64::MAX as int },
            p.proxy_refresh_timer.period_ms == PROXY_REFRESH_MS,
            p.print_error_timer.period_ms == POLL_ERROR_PRINT_MS,
            p.fail_count == 0,
    {
        Poller {
            head_timer: Timer::new(poll_ms),
            difficulty_timer: Timer::new(if poll_ms <= u64::MAX / 2 { 2 * poll_ms } else { u64::MAX }),
            proxy_refresh_timer: Timer::new(PROXY_REFRESH_MS),
            print_error_timer: Timer::new(POLL_ERROR_PRINT_MS),
            fail_count: 0,
        }
    }

    /// Milliseconds on the poller's clock.
    pub fn now_ms(&self) -> u64 {
        self.head_timer.now_ms()
    }

    /// The requests due at clock reading `now_ms`.
    pub fn due(&mut self, now_ms: u64) -> (d: PollDue)
        ensures
            d.head == timer_expired(old(self).head_timer.start_ms, old(self).head_timer.period_ms, now_ms),
            d.difficulty == timer_expired(
                old(self).difficulty_timer.start_ms,
                old(self).difficulty_timer.period_ms,
                now_ms,
            ),
            final(self).fail_count == old(self).fail_count,
    {
        let head = self.head_timer.check_and_reset_rt_at(now_ms);
        let difficulty = self.difficulty_timer.check_and_reset_rt_at(now_ms);
        PollDue { head, difficulty }
    }

    /// Books a finished round at clock reading `now_ms`: a success in the
    /// round clears the failure count; a round that ended on an error counts
    /// one more failure, prints it at most every `POLL_ERROR_PRINT_MS`, and
    /// more than `POLL_FAIL_LIMIT` in a row back off and clear the count.
    pub fn after_round(&mut self, succeeded: bool, failed: bool, now_ms: u64) -> (a: PollAfter)
        ensures
            ({
                let base = if succeeded { 0 } else { old(self).fail_count as int };
                let counted = if failed && base < u64::MAX { base + 1 } else { base };
                &&& a.back_off == (failed && counted > POLL_FAIL_LIMIT)
                &&& final(self).fail_count == if a.back_off { 0 } else { counted }
                &&& a.print_error == (failed && timer_expired(
                    old(self).print_error_timer.start_ms,
                    old(self).print_error_timer.period_ms,
                    now_ms,
                ))
                &&& a.reload_proxies == timer_expired(
                    old(self).proxy_refresh_timer.start_ms,
                    old(self).proxy_refresh_timer.period_ms,
                    now_ms,
                )
            }),
    {
        if succeeded {
            self.fail_count = 0;
        }
        let mut print_error = false;
        let mut back_off = false;
        if failed {
            self.fail_count = self.fail_count.saturating_add(1);
            print_error = self.print_error_timer.check_and_reset_at(now_ms);
            if self.fail_count > POLL_FAIL_LIMIT {
                back_off = true;
                self.fail_count = 0;
            }
        }
        let reload_proxies = self.proxy_refresh_timer.check_and_reset_at(now_ms);
        PollAfter { print_error, back_off, reload_proxies }
    }
}

/// Whether a proxy's attempt in a poll counts as a success for its record:
/// an answer, or an error that is not fatal.
pub fn poll_attempt_counts<T>(result: &Result<T, Error>) -> (r: bool)
    ensures
        r == match result {
            Ok(_) => true,
            Err(e) => !is_fatal(e),
        },
{
    match result {
        Ok(_) => true,
        Err(e) => !e.err_is_fatal(),
    }
}

} // verus!
