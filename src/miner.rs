use vstd::prelude::*;
use vstd::utf8::encode_utf8;
use crate::codec::{hex_lower, is_digest_hex, lemma_hex_round_trip, str_eq};
use crate::digest::{claim_digest, claim_hash};
use crate::error::Error;
use crate::util::{hash_has_zero_nibbles, hash_starts_n_zeroes};

verus! {

/// Throughput report from a worker: hashes computed since its last report.
#[derive(Debug)]
pub struct Stats {
    pub nhash: u64,
}

/// `std::sync::mpsc::SyncSender`, the sending end of a bounded channel,
/// carried through to the worker threads.
#[verifier::external_type_specification]
#[verifier::external_body]
#[verifier::reject_recursive_types(T)]
pub struct ExSyncSender<T>(std::sync::mpsc::SyncSender<T>);

/// What a worker thread takes along: the ends of the two bounded channels to
/// the coordinator, and the miner's identity.
pub struct MinerThreadData {
    pub stats_schan: std::sync::mpsc::SyncSender<Stats>,
    pub coin_schan: std::sync::mpsc::SyncSender<Coin>,
    pub miner_id: String,
}

/// A candidate coin found by a worker: the head it was mined on, the number
/// of leading zero nibbles it was searched for, and the blob.
#[derive(Debug)]
pub struct Coin {
    pub previous_coin: String,
    pub num_zeros: u64,
    pub blob: Vec<u8>,
}

/// Rejected claims after which the coordinator stops taking candidates.
pub const RECENT_BAD_LIMIT: u64 = 5;
/// How long after the last rejection the candidate intake stays shut.
pub const BAD_COIN_COOLDOWN_MS: u64 = 60_000;

/// What the coordinator makes of a candidate.
#[derive(Debug)]
pub enum Verdict {
    /// Mined on a head that is no longer current, or for a lower difficulty:
    /// dropped without a word.
    Stale,
    /// Its digest (hex) does not meet the current difficulty.
    BadHash(String),
    /// Worth claiming; the digest in hex.
    Claim(String),
}

/// The coordinator's bookkeeping: the head and difficulty the workers are
/// mining for, the claim counters, and the bad-coin throttle.
pub struct Coordinator {
    pub miner_id: String,
    pub ncpu: usize,
    pub last_coin: String,
    pub last_num_zeros: u64,
    pub coin_count: u64,
    pub lost_coin_count: u64,
    pub hash_count: u64,
    pub recent_bad_coin_count: u64,
    pub bad_coin_start_ms: u64,
}

impl Coordinator {
    pub fn new(miner_id: String, ncpu: usize, last_coin: String, last_num_zeros: u64) -> (c: Coordinator)
        ensures
            c.miner_id == miner_id,
            c.ncpu == ncpu,
            c.last_coin == last_coin,
            c.last_num_zeros == last_num_zeros,
            c.coin_count == 0,
            c.lost_coin_count == 0,
            c.hash_count == 0,
            c.recent_bad_coin_count == 0,
    {
        Coordinator {
            miner_id,
            ncpu,
            last_coin,
            last_num_zeros,
            coin_count: 0,
            lost_coin_count: 0,
            hash_count: 0,
            recent_bad_coin_count: 0,
            bad_coin_start_ms: 0,
        }
    }

    /// Whether another CPU worker is to be started while `running` are.
    pub fn wants_cpu_miner(&self, running: usize) -> (r: bool)
        ensures
            r == (running < self.ncpu),
    {
        running < self.ncpu
    }

    /// Adds a worker's throughput report to the hash count.
    pub fn record_stats(&mut self, s: Stats)
        ensures
            final(self).hash_count == if old(self).hash_count as int + s.nhash as int > u64::MAX as int {
                u64::MAX as int
            } else {
                old(self).hash_count as int + s.nhash as int
            },
            final(self).last_coin == old(self).last_coin,
            final(self).last_num_zeros == old(self).last_num_zeros,
            final(self).recent_bad_coin_count == old(self).recent_bad_coin_count,
    {
        self.hash_count = self.hash_count.saturating_add(s.nhash);
    }

    /// Starts a new throughput window.
    pub fn reset_stats(&mut self)
        ensures
            final(self).hash_count == 0,
            final(self).last_coin == old(self).last_coin,
            final(self).last_num_zeros == old(self).last_num_zeros,
            final(self).recent_bad_coin_count == old(self).recent_bad_coin_count,
    {
        self.hash_count = 0;
    }

    /// The candidate intake at clock reading `now_ms`: candidates are taken
    /// while fewer than `RECENT_BAD_LIMIT` claims were recently rejected.
    /// Once the limit is reached the intake stays shut, and the count is
    /// cleared when `BAD_COIN_COOLDOWN_MS` have passed since the last
    /// rejection (taking effect from the next call).
    pub fn intake_open(&mut self, now_ms: u64) -> (open: bool)
        ensures
            open == (old(self).recent_bad_coin_count < RECENT_BAD_LIMIT),
            final(self).recent_bad_coin_count == if !open && now_ms >= old(self).bad_coin_start_ms
                && now_ms - old(self).bad_coin_start_ms >= BAD_COIN_COOLDOWN_MS {
                0
            } else {
                old(self).recent_bad_coin_count
            },
            final(self).last_coin == old(self).last_coin,
            final(self).last_num_zeros == old(self).last_num_zeros,
            final(self).bad_coin_start_ms == old(self).bad_coin_start_ms,
            final(self).miner_id == old(self).miner_id,
    {
        if self.recent_bad_coin_count >= RECENT_BAD_LIMIT {
            if now_ms >= self.bad_coin_start_ms && now_ms - self.bad_coin_start_ms >= BAD_COIN_COOLDOWN_MS {
                self.recent_bad_coin_count = 0;
            }
            false
        } else {
            true
        }
    }

    /// Vets a candidate: it must be mined on the current head for at least
    /// the current difficulty; then its claim digest is recomputed and must
    /// begin with as many zero nibbles as the current difficulty asks.
    pub fn vet(&self, coin: &Coin) -> (r: Result<Verdict, Error>)
        ensures
            (coin.previous_coin@ != self.last_coin@ || self.last_num_zeros > coin.num_zeros)
                ==> r matches Ok(Verdict::Stale),
            (coin.previous_coin@ == self.last_coin@ && self.last_num_zeros <= coin.num_zeros) ==> {
                let d = claim_digest(encode_utf8(coin.previous_coin@), coin.blob@, encode_utf8(self.miner_id@));
                match r {
                    Ok(Verdict::Claim(h)) => h@ == hex_lower(d) && is_digest_hex(h@)
                        && hash_has_zero_nibbles(d, self.last_num_zeros as int),
                    Ok(Verdict::BadHash(h)) => h@ == hex_lower(d) && is_digest_hex(h@)
                        && !hash_has_zero_nibbles(d, self.last_num_zeros as int),
                    Ok(Verdict::Stale) => false,
                    Err(e) => e is OpenSSL,
                }
            },
    {
        if !str_eq(coin.previous_coin.as_str(), self.last_coin.as_str()) || self.last_num_zeros > coin.num_zeros {
            return Ok(Verdict::Stale);
        }
        match claim_hash(coin.previous_coin.as_str(), coin.blob.as_slice(), self.miner_id.as_str()) {
            Ok((d, h)) => {
                proof {
                    lemma_hex_round_trip(d@);
                }
                if hash_starts_n_zeroes(d.as_slice(), self.last_num_zeros) {
                    Ok(Verdict::Claim(h))
                } else {
                    Ok(Verdict::BadHash(h))
                }
            },
            Err(e) => Err(Error::OpenSSL(e)),
        }
    }

    /// Books a claim the service accepted: one more coin, the bad-coin count
    /// cleared, and the claimed digest becomes the head the workers mine on.
    pub fn claim_succeeded(&mut self, hash: String)
        ensures
            final(self).coin_count == if old(self).coin_count < u64::MAX { old(self).coin_count + 1 } else { old(self).coin_count as int },
            final(self).recent_bad_coin_count == 0,
            final(self).last_coin == hash,
            final(self).last_num_zeros == old(self).last_num_zeros,
            final(self).lost_coin_count == old(self).lost_coin_count,
            final(self).miner_id == old(self).miner_id,
    {
        self.coin_count = self.coin_count.saturating_add(1);
        self.recent_bad_coin_count = 0;
        self.last_coin = hash;
    }

    /// Books a failed claim at clock reading `now_ms`: one more lost coin;
    /// a rejected coin, or a claim that no path got through, also counts
    /// against the intake and restarts its cooldown.
    pub fn claim_failed(&mut self, e: &Error, now_ms: u64)
        ensures
            final(self).lost_coin_count == if old(self).lost_coin_count < u64::MAX { old(self).lost_coin_count + 1 } else { old(self).lost_coin_count as int },
            (e is BadCoin || e is AllRequestsFailed) ==> {
                &&& final(self).recent_bad_coin_count == if old(self).recent_bad_coin_count < u64::MAX {
                    old(self).recent_bad_coin_count + 1
                } else {
                    old(self).recent_bad_coin_count as int
                }
                &&& final(self).bad_coin_start_ms == now_ms
            },
            !(e is BadCoin || e is AllRequestsFailed) ==> {
                &&& final(self).recent_bad_coin_count == old(self).recent_bad_coin_count
                &&& final(self).bad_coin_start_ms == old(self).bad_coin_start_ms
            },
            final(self).last_coin == old(self).last_coin,
            final(self).last_num_zeros == old(self).last_num_zeros,
            final(self).coin_count == old(self).coin_count,
            final(self).miner_id == old(self).miner_id,
    {
        self.lost_coin_count = self.lost_coin_count.saturating_add(1);
        match e {
            Error::BadCoin(_) | Error::AllRequestsFailed(_) => {
                self.recent_bad_coin_count = self.recent_bad_coin_count.saturating_add(1);
                self.bad_coin_start_ms = now_ms;
            },
            _ => {},
        }
    }

    /// Takes in the head the tracker reports. A different head replaces the
    /// current one and clears the bad-coin count; the result says whether the
    /// workers are to be told.
    pub fn observe_head(&mut self, coin: String) -> (changed: bool)
        ensures
            changed == (coin@ != old(self).last_coin@),
            final(self).last_coin@ == coin@,
            final(self).recent_bad_coin_count == if changed { 0 } else { old(self).recent_bad_coin_count },
            final(self).last_num_zeros == old(self).last_num_zeros,
            final(self).miner_id == old(self).miner_id,
    {
        if !str_eq(coin.as_str(), self.last_coin.as_str()) {
            self.last_coin = coin;
            self.recent_bad_coin_count = 0;
            true
        } else {
            false
        }
    }

    /// Takes in the difficulty the tracker reports, as `observe_head`.
    pub fn observe_difficulty(&mut self, num_zeros: u64) -> (changed: bool)
        ensures
            changed == (num_zeros != old(self).last_num_zeros),
            final(self).last_num_zeros == num_zeros,
            final(self).recent_bad_coin_count == if changed { 0 } else { old(self).recent_bad_coin_count },
            final(self).last_coin == old(self).last_coin,
            final(self).miner_id == old(self).miner_id,
    {
        if num_zeros != self.last_num_zeros {
            self.last_num_zeros = num_zeros;
            self.recent_bad_coin_count = 0;
            true
        } else {
            false
        }
    }
}


} // verus!
