use vstd::prelude::*;
use crate::clock::{instant_now, millis_since};
use crate::codec::{hex_lower, nibble_char};

verus! {

/// Length in bytes of an MD5 digest.
pub const MD5_HASH_LEN: usize = 16;

/// Length in characters of the hex form of an MD5 digest.
pub const MD5_HASH_HEX_LEN: usize = 32;

/// A periodic trigger over a monotonic millisecond clock.
///
/// `start_ms` and `period_ms` are measured on the clock whose origin is
/// `origin`; `check_and_reset_at` holds all of the timer's logic and takes
/// the reading as an argument.
pub struct Timer {
    pub origin: std::time::Instant,
    pub start_ms: u64,
    pub period_ms: u64,
}

/// Whether a timer that started at `start` with period `period` has expired
/// at reading `now`. Readings before `start` count as no time elapsed.
pub open spec fn timer_expired(start: u64, period: u64, now: u64) -> bool {
    now > start && now - start > period
}

impl Timer {
    /// A timer with the given period, started now.
    pub fn new(period_ms: u64) -> (t: Timer)
        ensures
            t.start_ms == 0,
            t.period_ms == period_ms,
    {
        Timer { origin: instant_now(), start_ms: 0, period_ms }
    }

    /// Milliseconds on this timer's clock.
    pub fn now_ms(&self) -> u64 {
        millis_since(&self.origin)
    }

    /// Edge trigger at clock reading `now`: returns whether the period has
    /// elapsed since the start, and if so restarts the timer at `now`.
    pub fn check_and_reset_at(&mut self, now: u64) -> (fired: bool)
        ensures
            fired == timer_expired(old(self).start_ms, old(self).period_ms, now),
            final(self).period_ms == old(self).period_ms,
            final(self).origin == old(self).origin,
            !fired ==> *final(self) == *old(self),
            final(self).start_ms == if fired { now } else { old(self).start_ms },
    {
        if now > self.start_ms && now - self.start_ms > self.period_ms {
            self.start_ms = now;
            true
        } else {
            false
        }
    }

    /// Strictly periodic trigger at clock reading `now`: as
    /// `check_and_reset_at`, but restarts the timer one period after its old
    /// start, so that a slow caller still sees every period.
    pub fn check_and_reset_rt_at(&mut self, now: u64) -> (fired: bool)
        ensures
            fired == timer_expired(old(self).start_ms, old(self).period_ms, now),
            final(self).period_ms == old(self).period_ms,
            final(self).origin == old(self).origin,
            !fired ==> *final(self) == *old(self),
            final(self).start_ms == if fired {
                old(self).start_ms + old(self).period_ms
            } else {
                old(self).start_ms as int
            },
    {
        if now > self.start_ms && now - self.start_ms > self.period_ms {
            self.start_ms = self.start_ms + self.period_ms;
            true
        } else {
            false
        }
    }

    /// `check_and_reset_at` at the current reading of the clock.
    pub fn check_and_reset(&mut self) -> (fired: bool)
        ensures
            final(self).period_ms == old(self).period_ms,
            final(self).origin == old(self).origin,
            !fired ==> *final(self) == *old(self),
            fired ==> final(self).start_ms > old(self).start_ms + old(self).period_ms,
            !fired ==> final(self).start_ms == old(self).start_ms,
    {
        let now = millis_since(&self.origin);
        self.check_and_reset_at(now)
    }

    /// `check_and_reset_rt_at` at the current reading of the clock.
    pub fn check_and_reset_rt(&mut self) -> (fired: bool)
        ensures
            final(self).period_ms == old(self).period_ms,
            final(self).origin == old(self).origin,
            !fired ==> *final(self) == *old(self),
            final(self).start_ms == if fired {
                old(self).start_ms + old(self).period_ms
            } else {
                old(self).start_ms as int
            },
    {
        let now = millis_since(&self.origin);
        self.check_and_reset_rt_at(now)
    }
}

/// Whether `hex` begins with `n` `'0'` characters.
pub open spec fn hex_has_zero_prefix(hex: Seq<char>, n: int) -> bool {
    n <= hex.len() && forall|i: int| 0 <= i < n ==> hex[i] == '0'
}

/// Whether the digest `hash` begins with `n` zero nibbles, high nibble of
/// each byte first.
pub open spec fn hash_has_zero_nibbles(hash: Seq<u8>, n: int) -> bool {
    &&& n <= 2 * hash.len()
    &&& forall|i: int| 0 <= i < n / 2 ==> hash[i] == 0
    &&& (n % 2 == 1 ==> hash[n / 2] < 16)
}

/// Whether the 16-byte digest `hash` begins with `n` zero hex digits: the
/// first `n / 2` bytes are zero and, for odd `n`, so is the high nibble of the
/// next byte. No digest begins with more than 32 zero digits.
pub fn hash_starts_n_zeroes(hash: &[u8], n: u64) -> (r: bool)
    requires
        hash@.len() == MD5_HASH_LEN,
    ensures
        r == hash_has_zero_nibbles(hash@, n as int),
{
    if n > 32 {
        return false;
    }
    let half: usize = (n / 2) as usize;
    let mut i: usize = 0;
    while i < half
        invariant
            half == n / 2,
            n <= 32,
            hash@.len() == MD5_HASH_LEN,
            i <= half,
            forall|j: int| 0 <= j < i ==> hash@[j] == 0,
        decreases half - i,
    {
        if hash[i] != 0 {
            return false;
        }
        i = i + 1;
    }
    if n % 2 == 1 {
        let b: u8 = hash[half];
        if (b & 0xF0) != 0 {
            assert(b >= 16) by (bit_vector)
                requires
                    b & 0xF0u8 != 0u8,
            ;
            return false;
        }
        assert(b < 16) by (bit_vector)
            requires
                b & 0xF0u8 == 0u8,
        ;
    }
    true
}

/// Whether the 32-digit hex string `hex` begins with `n` `'0'` characters.
pub fn hex_starts_n_zeroes(hex: &str, n: u64) -> (r: bool)
    requires
        hex@.len() == MD5_HASH_HEX_LEN,
        n <= MD5_HASH_HEX_LEN,
    ensures
        r == hex_has_zero_prefix(hex@, n as int),
{
    let len = hex.unicode_len();
    if n > len as u64 {
        return false;
    }
    let mut i: usize = 0;
    while i < n as usize
        invariant
            n <= len,
            len == hex@.len(),
            i <= n,
            forall|j: int| 0 <= j < i ==> hex@[j] == '0',
        decreases n - i,
    {
        if hex.get_char(i) != '0' {
            return false;
        }
        i = i + 1;
    }
    true
}

/// A digest begins with `n` zero nibbles exactly when its lowercase hex form
/// begins with `n` `'0'` characters.
pub proof fn lemma_zero_nibbles_iff_zero_hex(h: Seq<u8>, n: int)
    requires
        h.len() == MD5_HASH_LEN,
        n >= 0,
    ensures
        hash_has_zero_nibbles(h, n) <==> hex_has_zero_prefix(hex_lower(h), n),
{
    let x = hex_lower(h);
    assert forall|v: int| 0 <= v < 16 implies (#[trigger] nibble_char(v) == '0' <==> v == 0) by {}
    if n <= 32 {
        if hash_has_zero_nibbles(h, n) {
            assert forall|i: int| 0 <= i < n implies x[i] == '0' by {
                let b = h[i / 2] as int;
                if i / 2 < n / 2 {
                    assert(b == 0);
                } else {
                    assert(i == n - 1 && n % 2 == 1 && i % 2 == 0);
                    assert(b < 16);
                    assert(b / 16 == 0);
                }
            }
        }
        if hex_has_zero_prefix(x, n) {
            assert forall|i: int| 0 <= i < n / 2 implies h[i] == 0 by {
                let b = h[i] as int;
                assert(x[2 * i] == nibble_char(b / 16));
                assert(x[2 * i + 1] == nibble_char(b % 16));
                assert(b / 16 == 0 && b % 16 == 0);
            }
            if n % 2 == 1 {
                let b = h[n / 2] as int;
                assert(x[2 * (n / 2)] == nibble_char(b / 16));
                assert(b / 16 == 0);
            }
        }
    }
}

/// Every digest begins with zero zero nibbles, and a digest begins with 32
/// only when all of its bytes are zero: every other digest is rejected.
pub proof fn lemma_zero_nibble_bounds(h: Seq<u8>)
    requires
        h.len() == MD5_HASH_LEN,
    ensures
        hash_has_zero_nibbles(h, 0),
        hash_has_zero_nibbles(h, 32) <==> forall|i: int| 0 <= i < 16 ==> h[i] == 0,
        forall|n: int| n > 32 ==> !hash_has_zero_nibbles(h, n),
{
}

/// After an edge-triggered timer fires at `now`, it stays quiet for every
/// later reading at most one period on, and fires again at the first
/// reading past that: once per elapsed period under a monotonic clock.
pub proof fn lemma_timer_fires_once_per_period(start: u64, period: u64, now: u64, later: u64)
    requires
        timer_expired(start, period, now),
        now <= later,
    ensures
        later - now <= period ==> !timer_expired(now, period, later),
        later - now > period ==> timer_expired(now, period, later),
{
}

} // verus!
