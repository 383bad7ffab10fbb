use vstd::prelude::*;
use vstd::bytes::{spec_u32_from_le_bytes, spec_u32_to_le_bytes, u32_from_le_bytes, u32_to_le_bytes, lemma_auto_spec_u32_to_from_le_bytes};
use vstd::utf8::encode_utf8;
use crate::digest::{md5_of, coin_prefix, COIN_PREFIX_STR};
use crate::miner::Coin;
use crate::util::hash_has_zero_nibbles;

verus! {

/// Bytes in one kernel word.
pub const OCL_WORD_LEN: usize = 4;
/// Bytes in the message the kernel hashes: four MD5 blocks.
pub const OCL_MESSAGE_LEN: usize = 256;
/// Byte offset of the part of the blob that the kernel varies fastest.
pub const OCL_BLOB_INDEX: usize = 52;
/// Bytes in the fast-varying part of the blob.
pub const OCL_BLOB_LEN_FAST: usize = 128;
/// Bytes in the whole blob region: the message less prefix, head and identity.
pub const OCL_BLOB_LEN: usize = 172;
/// Byte offset of the word the kernel uses as its last-round counter.
pub const OCL_COUNTER_INDEX: usize = 196;
/// Iterations of the kernel's outer loop per work item.
pub const OCL_N_LOOPS: u64 = 64;
/// Iterations of the kernel's inner loop per outer iteration.
pub const OCL_N_LOOPS_2: u64 = 256;
/// Dispatches between two work-group size decisions.
pub const WG_MULTIPLIER_CHANGE_ITERATIONS: u64 = 64;
/// How long a declared peak stands before the tuner probes upwards again.
pub const WG_PEAK_RETRY_MS: u64 = 600_000;

/// Word index of the fast blob part.
pub open spec fn blob_word() -> int { OCL_BLOB_INDEX as int / 4 }
/// Words in the fast blob part.
pub open spec fn blob_fast_words() -> int { OCL_BLOB_LEN_FAST as int / 4 }
/// Word index of the last-round counter.
pub open spec fn counter_word() -> int { OCL_COUNTER_INDEX as int / 4 }

/// What the kernel does to word `k` of the base message, whose value is
/// `val`, for the hit `(id, idx, idx2)` under the randomisation `r`.
pub open spec fn kernel_word(val: u32, k: int, id: u32, idx: u32, idx2: u32, r: Seq<u32>) -> u32 {
    let v1 = if k == blob_word() + (id.wrapping_add(r[0]) as int) % blob_fast_words() {
        val.wrapping_add(id.wrapping_add(idx.wrapping_mul(4)))
    } else {
        val
    };
    let v2 = if k == blob_word() + ((id.wrapping_add(r[1]) as int) + blob_fast_words() / 4)
        % blob_fast_words() {
        v1 ^ ((id << 16u32) | id)
    } else {
        v1
    };
    let v3 = if k == blob_word() + blob_fast_words() {
        v2.wrapping_add((id << 16u32).wrapping_add(idx).wrapping_sub(r[2]))
    } else {
        v2
    };
    if k == counter_word() {
        v3.wrapping_add(idx2 >> 2u32).wrapping_add(idx2 << 24u32).wrapping_add(idx << 12u32)
    } else {
        v3
    }
}

/// Whether byte `p` lies in a word that the kernel may change: one that
/// starts inside `[start, end)`.
pub open spec fn in_kernel_word(p: int, start: int, end: int) -> bool {
    start <= 4 * (p / 4) < end
}

/// The value of word `k` of `m`, little-endian.
pub open spec fn word_of(m: Seq<u8>, k: int) -> u32 {
    spec_u32_from_le_bytes(m.subrange(4 * k, 4 * k + 4))
}

/// The whole message that the kernel hashed for the hit `(id, idx, idx2)`:
/// the base message with each word that starts in `[start, end)` transformed.
pub open spec fn kernel_message(
    base: Seq<u8>,
    start: int,
    end: int,
    id: u32,
    idx: u32,
    idx2: u32,
    r: Seq<u32>,
) -> Seq<u8> {
    Seq::new(
        base.len(),
        |p: int|
            if in_kernel_word(p, start, end) {
                spec_u32_to_le_bytes(kernel_word(word_of(base, p / 4), p / 4, id, idx, idx2, r))[p % 4]
            } else {
                base[p]
            },
    )
}

/// The kernel's transformation of one word.
fn transform_word(val: u32, k: usize, id: u32, idx: u32, idx2: u32, r: &[u32]) -> (w: u32)
    requires
        r@.len() == 3,
    ensures
        w == kernel_word(val, k as int, id, idx, idx2, r@),
{
    let bi: usize = OCL_BLOB_INDEX / OCL_WORD_LEN;
    let bl: usize = OCL_BLOB_LEN_FAST / OCL_WORD_LEN;
    let ci: usize = OCL_COUNTER_INDEX / OCL_WORD_LEN;
    let mut v = val;
    if k == bi + (id.wrapping_add(r[0]) as usize) % bl {
        v = v.wrapping_add(id.wrapping_add(idx.wrapping_mul(4)));
    }
    if k as u64 == bi as u64 + ((id.wrapping_add(r[1]) as u64) + bl as u64 / 4) % bl as u64 {
        v = v ^ ((id << 16u32) | id);
    }
    if k == bi + bl {
        v = v.wrapping_add((id << 16u32).wrapping_add(idx).wrapping_sub(r[2]));
    }
    if k == ci {
        v = v.wrapping_add(idx2 >> 2u32).wrapping_add(idx2 << 24u32).wrapping_add(idx << 12u32);
    }
    v
}

/// Rebuilds the bytes `[mod_start, mod_end)` of the message that the kernel
/// hashed when it reported the hit `(id, idx, idx2)` under the randomisation
/// `r` (the last three words of its input parameters). Words are
/// little-endian; only words that start inside the modifiable region change.
pub fn message_for_id(
    message_base: &[u8],
    mod_start: usize,
    mod_end: usize,
    id: u32,
    idx: u32,
    idx2: u32,
    r: &[u32],
) -> (m: Vec<u8>)
    requires
        r@.len() == 3,
        mod_start <= mod_end <= message_base@.len(),
        message_base@.len() % 4 == 0,
        mod_end % 4 == 0,
    ensures
        m@ == kernel_message(message_base@, mod_start as int, mod_end as int, id, idx, idx2, r@)
            .subrange(mod_start as int, mod_end as int),
{
    proof {
        lemma_auto_spec_u32_to_from_le_bytes();
    }
    let ghost km = kernel_message(message_base@, mod_start as int, mod_end as int, id, idx, idx2, r@);
    let mut message = vstd::slice::slice_to_vec(&message_base[mod_start..mod_end]);
    let len = message_base.len();
    let mut i: usize = 0;
    while i < len
        invariant
            r@.len() == 3,
            mod_start <= mod_end <= len,
            len == message_base@.len(),
            len % 4 == 0,
            mod_end % 4 == 0,
            i % 4 == 0,
            i <= len,
            km == kernel_message(message_base@, mod_start as int, mod_end as int, id, idx, idx2, r@),
            message@.len() == mod_end - mod_start,
            forall|p: int|
                mod_start <= p < mod_end ==> #[trigger] message@[p - mod_start] == if p < i {
                    km[p]
                } else {
                    message_base@[p]
                },
        decreases len - i,
    {
        if mod_start <= i && i < mod_end {
            let val = u32_from_le_bytes(&message_base[i..i + 4]);
            let w = transform_word(val, i / 4, id, idx, idx2, r);
            let b = u32_to_le_bytes(w);
            let o: usize = i - mod_start;
            message.set(o, b[0]);
            message.set(o + 1, b[1]);
            message.set(o + 2, b[2]);
            message.set(o + 3, b[3]);
            assert(val == word_of(message_base@, (i / 4) as int));
        }
        assert forall|p: int| mod_start <= p < mod_end implies #[trigger] message@[p - mod_start]
            == if p < i + 4 { km[p] } else { message_base@[p] } by {
            if i <= p < i + 4 {
                assert(p / 4 == i / 4);
                assert(4 * (p / 4) == i);
                if !(mod_start <= i) {
                    assert(!in_kernel_word(p, mod_start as int, mod_end as int));
                }
            }
        }
        i = i + 4;
    }
    assert forall|j: int| 0 <= j < message@.len() implies message@[j] == km.subrange(
        mod_start as int,
        mod_end as int,
    )[j] by {
        let p = j + mod_start;
        assert(message@[p - mod_start] == km[p]);
    }
    assert(message@ =~= km.subrange(mod_start as int, mod_end as int));
    message
}

/// Putting the rebuilt bytes back between the unchanged head and tail of the
/// base message gives exactly the message the kernel hashed, so the host's
/// digest of the candidate is the kernel's digest of its hit.
pub proof fn lemma_reconstruction_matches_kernel(
    base: Seq<u8>,
    start: int,
    end: int,
    id: u32,
    idx: u32,
    idx2: u32,
    r: Seq<u32>,
)
    requires
        0 <= start <= end <= base.len(),
        end % 4 == 0,
    ensures
        ({
            let km = kernel_message(base, start, end, id, idx, idx2, r);
            &&& base.subrange(0, start) + km.subrange(start, end) + base.subrange(end, base.len() as int) == km
            &&& md5_of(base.subrange(0, start) + km.subrange(start, end)
                + base.subrange(end, base.len() as int)) == md5_of(km)
        }),
{
    let km = kernel_message(base, start, end, id, idx, idx2, r);
    let whole = base.subrange(0, start) + km.subrange(start, end) + base.subrange(end, base.len() as int);
    assert forall|p: int| 0 <= p < base.len() implies #[trigger] whole[p] == km[p] by {
        if p < start {
            assert(!in_kernel_word(p, start, end) || 4 * (p / 4) >= start);
            assert(4 * (p / 4) <= p);
        } else if p >= end {
            assert(4 * (p / 4) >= end) by {
                assert(end % 4 == 0);
            }
        }
    }
    assert(whole =~= km);
}

/// The mask on the digest's second little-endian word whose bits must all be
/// zero for a hit, when the kernel has already required the first word (eight
/// nibbles) to be zero: one byte per further pair of zero nibbles, and the
/// high nibble of the next byte for an odd count.
pub open spec fn word2_mask(num_zeros: u64) -> u32 {
    seq![0x0u32, 0xF0, 0xFF, 0xF0FF, 0xFFFF, 0xF0FFFF, 0xFFFFFF, 0xF0FFFFFF][num_zeros - 8]
}

/// The second-word mask for `num_zeros` leading zero nibbles.
pub fn num_zeros_to_word2_mask(num_zeros: u64) -> (m: u32)
    requires
        8 <= num_zeros < 16,
    ensures
        m == word2_mask(num_zeros),
{
    let even_nz = num_zeros - num_zeros % 2;
    let even_bits: u32 = ((even_nz - 8) * 4) as u32;
    assert(even_bits == 0 || even_bits == 8 || even_bits == 16 || even_bits == 24);
    assert(1u32 << even_bits >= 1u32 && (
        (even_bits == 0u32 ==> (1u32 << even_bits) - 1u32 == 0u32 && 0u32 | (0xF0u32 << even_bits) == 0xF0u32)
        && (even_bits == 8u32 ==> (1u32 << even_bits) - 1u32 == 0xFFu32 && 0xFFu32 | (0xF0u32 << even_bits) == 0xF0FFu32)
        && (even_bits == 16u32 ==> (1u32 << even_bits) - 1u32 == 0xFFFFu32 && 0xFFFFu32 | (0xF0u32 << even_bits) == 0xF0FFFFu32)
        && (even_bits == 24u32 ==> (1u32 << even_bits) - 1u32 == 0xFFFFFFu32 && 0xFFFFFFu32 | (0xF0u32 << even_bits) == 0xF0FFFFFFu32)
    )) by (bit_vector)
        requires
            even_bits == 0u32 || even_bits == 8u32 || even_bits == 16u32 || even_bits == 24u32,
    ;
    let even_mask: u32 = (1u32 << even_bits) - 1;
    if num_zeros % 2 == 0 {
        even_mask
    } else {
        even_mask | (0xF0u32 << even_bits)
    }
}

/// Adaptive work-group sizing: every `WG_MULTIPLIER_CHANGE_ITERATIONS`
/// dispatches the multiplier doubles while the hash rate rises and the loop
/// stays under `max_loop_ms`; the first regression or overlong loop halves it
/// (never below one) and declares a peak, after which it waits
/// `WG_PEAK_RETRY_MS` before doubling again.
pub struct WorkGroupTuner {
    pub multiplier: u64,
    pub found_peak: bool,
    pub peak_time_ms: u64,
    pub last_hash_rate: u64,
    pub hash_count: u64,
    pub runtime_ms: u64,
    pub iterations: u64,
    pub max_loop_ms: u64,
}

/// Hashes per second over an interval; an interval that took no measurable
/// time counts as one millisecond.
pub open spec fn interval_rate(hash_count: u64, runtime_ms: u64) -> int {
    (1000 * hash_count as int) / (if runtime_ms == 0 { 1 } else { runtime_ms as int })
}

/// The multiplier doubled, where that fits.
pub open spec fn doubled(m: u64) -> u64 {
    if m <= u64::MAX / 2 { (2 * m) as u64 } else { m }
}

/// The multiplier halved, but not below one.
pub open spec fn halved(m: u64) -> u64 {
    if m / 2 == 0 { 1 } else { m / 2 }
}

impl WorkGroupTuner {
    /// Starts at multiplier one with no peak.
    pub fn new(max_loop_ms: u64) -> (t: WorkGroupTuner)
        ensures
            t.multiplier == 1,
            !t.found_peak,
            t.last_hash_rate == 0,
            t.hash_count == 1,
            t.runtime_ms == 1,
            t.iterations == 0,
            t.max_loop_ms == max_loop_ms,
    {
        WorkGroupTuner {
            multiplier: 1,
            found_peak: false,
            peak_time_ms: 0,
            last_hash_rate: 0,
            hash_count: 1,
            runtime_ms: 1,
            iterations: 0,
            max_loop_ms,
        }
    }

    /// Adds one dispatch's time to the current interval.
    pub fn record_time(&mut self, loop_ms: u64)
        ensures
            final(self).runtime_ms == if old(self).runtime_ms as int + loop_ms as int > u64::MAX as int {
                u64::MAX as int
            } else {
                old(self).runtime_ms as int + loop_ms as int
            },
            final(self).multiplier == old(self).multiplier,
            final(self).iterations == old(self).iterations,
            final(self).hash_count == old(self).hash_count,
            final(self).found_peak == old(self).found_peak,
            final(self).max_loop_ms == old(self).max_loop_ms,
    {
        self.runtime_ms = self.runtime_ms.saturating_add(loop_ms);
    }

    /// Counts one completed dispatch of `nhashes` hashes at clock reading
    /// `now_ms` and, at the end of an interval, decides the next multiplier.
    pub fn record_dispatch(&mut self, nhashes: u64, now_ms: u64)
        requires
            old(self).multiplier >= 1,
        ensures
            final(self).multiplier >= 1,
            final(self).max_loop_ms == old(self).max_loop_ms,
            final(self).iterations == if old(self).iterations < u64::MAX {
                old(self).iterations + 1
            } else {
                old(self).iterations as int
            },
            ({
                let count = if old(self).hash_count as int + nhashes as int > u64::MAX as int {
                    u64::MAX as int
                } else {
                    old(self).hash_count as int + nhashes as int
                };
                let rate = interval_rate(count as u64, old(self).runtime_ms);
                let cur_loop = old(self).runtime_ms / WG_MULTIPLIER_CHANGE_ITERATIONS;
                if final(self).iterations % WG_MULTIPLIER_CHANGE_ITERATIONS != 0 {
                    &&& final(self).multiplier == old(self).multiplier
                    &&& final(self).found_peak == old(self).found_peak
                    &&& final(self).hash_count == count
                    &&& final(self).runtime_ms == old(self).runtime_ms
                } else {
                    &&& final(self).hash_count == 0
                    &&& final(self).runtime_ms == 0
                    &&& final(self).last_hash_rate == if rate > u64::MAX { u64::MAX as int } else { rate }
                    &&& if !old(self).found_peak {
                        if cur_loop > old(self).max_loop_ms || rate < old(self).last_hash_rate {
                            &&& final(self).multiplier == halved(old(self).multiplier)
                            &&& final(self).found_peak
                            &&& final(self).peak_time_ms == now_ms
                        } else {
                            &&& final(self).multiplier == doubled(old(self).multiplier)
                            &&& !final(self).found_peak
                        }
                    } else if now_ms > old(self).peak_time_ms
                        && now_ms - old(self).peak_time_ms > WG_PEAK_RETRY_MS {
                        &&& final(self).multiplier == doubled(old(self).multiplier)
                        &&& !final(self).found_peak
                    } else {
                        &&& final(self).multiplier == old(self).multiplier
                        &&& final(self).found_peak
                    }
                }
            }),
    {
        self.iterations = self.iterations.saturating_add(1);
        self.hash_count = self.hash_count.saturating_add(nhashes);
        if self.iterations % WG_MULTIPLIER_CHANGE_ITERATIONS == 0 {
            let runtime: u64 = if self.runtime_ms == 0 { 1 } else { self.runtime_ms };
            let rate_wide: u128 = (1000u128 * self.hash_count as u128) / runtime as u128;
            let hash_rate: u64 = if rate_wide > u64::MAX as u128 { u64::MAX } else { rate_wide as u64 };
            let cur_loop_ms = self.runtime_ms / WG_MULTIPLIER_CHANGE_ITERATIONS;
            if !self.found_peak {
                if cur_loop_ms > self.max_loop_ms || rate_wide < self.last_hash_rate as u128 {
                    self.multiplier = if self.multiplier / 2 == 0 { 1 } else { self.multiplier / 2 };
                    self.found_peak = true;
                    self.peak_time_ms = now_ms;
                } else {
                    if self.multiplier <= u64::MAX / 2 {
                        self.multiplier = 2 * self.multiplier;
                    }
                }
            } else if now_ms > self.peak_time_ms && now_ms - self.peak_time_ms > WG_PEAK_RETRY_MS {
                if self.multiplier <= u64::MAX / 2 {
                    self.multiplier = 2 * self.multiplier;
                }
                self.found_peak = false;
            }
            self.last_hash_rate = hash_rate;
            self.hash_count = 0;
            self.runtime_ms = 0;
        }
    }
}

/// Value of an output word the kernel leaves untouched when it finds no hit.
pub const NO_HIT: u32 = 0xFFFF_FFFF;

/// The GPU worker's host-side state between dispatches: the seed message,
/// the head and difficulty it is mining for, and its pacing.
pub struct GpuSearch {
    pub previous_coin: String,
    pub miner_id: String,
    pub num_zeros: u64,
    pub word2_mask: u32,
    pub message: Vec<u8>,
    pub modifiable_start: usize,
    pub modifiable_end: usize,
    pub loop_ms: u64,
    pub loop_iterations: u64,
    pub stat_hash_counter: u64,
    pub throttle_of_100: u64,
    pub tuner: WorkGroupTuner,
}

/// What the host does after one dispatch.
#[derive(Debug)]
pub struct GpuStep {
    /// The result was stale (the head changed) and was dropped.
    pub discarded: bool,
    /// The candidate to publish, if the kernel reported a hit.
    pub candidate: Option<Coin>,
    /// How long to sleep to honour the utilisation limit.
    pub sleep_ms: u64,
}

impl GpuSearch {
    /// Well-formed: a 256-byte message laid out as prefix, head, modifiable
    /// region and identity, whose modifiable region leaves room
    /// for the 48 bytes of stamp and randomness, a difficulty the kernel's
    /// mask can express, and the mask that goes with it.
    pub open spec fn wf(&self) -> bool {
        &&& self.message@.len() == OCL_MESSAGE_LEN
        &&& self.modifiable_start == coin_prefix().len() + encode_utf8(self.previous_coin@).len()
        &&& self.message@.subrange(0, self.modifiable_start as int) == coin_prefix() + encode_utf8(self.previous_coin@)
        &&& self.message@.subrange(self.modifiable_end as int, OCL_MESSAGE_LEN as int) == encode_utf8(self.miner_id@)
        &&& self.modifiable_start + 48 <= self.modifiable_end <= OCL_MESSAGE_LEN
        &&& self.modifiable_end % 4 == 0
        &&& 8 <= self.num_zeros < 16
        &&& self.word2_mask == word2_mask(self.num_zeros)
        &&& self.tuner.multiplier >= 1
    }

    /// The seed message for `previous_coin` and `miner_id`, with the
    /// modifiable region zeroed. `None` when the head and identity leave no
    /// room for the 48 bytes of stamp and randomness, when the identity's
    /// length is not a whole number of words, or when the difficulty is not
    /// one the kernel's mask can express (8 to 15 nibbles).
    pub fn new(previous_coin: String, miner_id: &str, num_zeros: u64, max_loop_ms: u64, throttle_of_100: u64) -> (r: Option<GpuSearch>)
        ensures
            r is Some <==> {
                &&& 8 <= num_zeros < 16
                &&& encode_utf8(miner_id@).len() % 4 == 0
                &&& coin_prefix().len() + encode_utf8(previous_coin@).len() + 48 + encode_utf8(miner_id@).len() <= OCL_MESSAGE_LEN
            },
            r is Some ==> {
                let g = r->Some_0;
                &&& g.wf()
                &&& g.previous_coin == previous_coin
                &&& g.num_zeros == num_zeros
                &&& g.modifiable_start == coin_prefix().len() + encode_utf8(previous_coin@).len()
                &&& g.modifiable_end == OCL_MESSAGE_LEN - encode_utf8(miner_id@).len()
                &&& g.message@ == coin_prefix() + encode_utf8(previous_coin@)
                    + Seq::new((g.modifiable_end - g.modifiable_start) as nat, |i: int| 0u8)
                    + encode_utf8(miner_id@)
                &&& g.throttle_of_100 == throttle_of_100
                &&& g.tuner.max_loop_ms == max_loop_ms
            },
    {
        let prefix = COIN_PREFIX_STR.as_bytes_vec();
        let prev = previous_coin.as_str().as_bytes_vec();
        let id = miner_id.as_bytes_vec();
        if num_zeros < 8 || num_zeros >= 16 || id.len() % 4 != 0 || prefix.len() > OCL_MESSAGE_LEN
            || prev.len() > OCL_MESSAGE_LEN || id.len() > OCL_MESSAGE_LEN
            || prefix.len() + prev.len() + 48 + id.len() > OCL_MESSAGE_LEN {
            return None;
        }
        let modifiable_start = prefix.len() + prev.len();
        let modifiable_end = OCL_MESSAGE_LEN - id.len();
        let mut message = prefix;
        message.extend_from_slice(prev.as_slice());
        let mut i: usize = modifiable_start;
        while i < modifiable_end
            invariant
                modifiable_start <= i <= modifiable_end,
                message@ == coin_prefix() + prev@ + Seq::new((i - modifiable_start) as nat, |j: int| 0u8),
            decreases modifiable_end - i,
        {
            message.push(0u8);
            proof {
                assert(Seq::new((i + 1 - modifiable_start) as nat, |j: int| 0u8)
                    =~= Seq::new((i - modifiable_start) as nat, |j: int| 0u8).push(0u8));
            }
            i = i + 1;
        }
        message.extend_from_slice(id.as_slice());
        assert(message@.subrange(0, modifiable_start as int) =~= coin_prefix() + prev@);
        assert(message@.subrange(modifiable_end as int, OCL_MESSAGE_LEN as int) =~= id@);
        Some(GpuSearch {
            previous_coin,
            miner_id: String::from_str(miner_id),
            num_zeros,
            word2_mask: num_zeros_to_word2_mask(num_zeros),
            message,
            modifiable_start,
            modifiable_end,
            loop_ms: 0,
            loop_iterations: 0,
            stat_hash_counter: 0,
            throttle_of_100,
            tuner: WorkGroupTuner::new(max_loop_ms),
        })
    }

    /// Refills the modifiable region with a timestamp (16 bytes,
    /// little-endian), 16 bytes from each of two generators, and filler.
    pub fn reseed(&mut self, stamp: u128, ssl: &[u8], os: &[u8], fill: &[u8])
        requires
            old(self).wf(),
            ssl@.len() == 16,
            os@.len() == 16,
            fill@.len() == old(self).modifiable_end - old(self).modifiable_start - 48,
        ensures
            final(self).wf(),
            final(self).message@ == old(self).message@.subrange(0, old(self).modifiable_start as int)
                + vstd::bytes::spec_u128_to_le_bytes(stamp) + ssl@ + os@ + fill@
                + old(self).message@.subrange(old(self).modifiable_end as int, OCL_MESSAGE_LEN as int),
            final(self).modifiable_start == old(self).modifiable_start,
            final(self).modifiable_end == old(self).modifiable_end,
            final(self).previous_coin == old(self).previous_coin,
            final(self).num_zeros == old(self).num_zeros,
            final(self).tuner == old(self).tuner,
            final(self).loop_iterations == old(self).loop_iterations,
    {
        proof {
            vstd::bytes::lemma_auto_spec_u128_to_from_le_bytes();
        }
        let st = vstd::bytes::u128_to_le_bytes(stamp);
        let mut m = vstd::slice::slice_to_vec(&self.message.as_slice()[0..self.modifiable_start]);
        m.extend_from_slice(st.as_slice());
        m.extend_from_slice(ssl);
        m.extend_from_slice(os);
        m.extend_from_slice(fill);
        m.extend_from_slice(&self.message.as_slice()[self.modifiable_end..OCL_MESSAGE_LEN]);
        let ghost old_msg = self.message@;
        self.message = m;
        proof {
            assert(self.message@.subrange(0, self.modifiable_start as int)
                =~= old_msg.subrange(0, self.modifiable_start as int));
            assert(self.message@.subrange(self.modifiable_end as int, OCL_MESSAGE_LEN as int)
                =~= old_msg.subrange(self.modifiable_end as int, OCL_MESSAGE_LEN as int));
        }
    }

    /// The kernel's input parameters: the second-word mask, then the three
    /// randomisation words.
    pub fn params_in(&self, r1: u32, r2: u32, r3: u32) -> (p: Vec<u32>)
        ensures
            p@ == seq![self.word2_mask, r1, r2, r3],
    {
        let mut p = Vec::new();
        p.push(self.word2_mask);
        p.push(r1);
        p.push(r2);
        p.push(r3);
        p
    }

    /// Takes the hashes counted since the last report.
    pub fn take_stat_hashes(&mut self) -> (n: u64)
        ensures
            n == old(self).stat_hash_counter,
            final(self).stat_hash_counter == 0,
            final(self).wf() == old(self).wf(),
    {
        let n = self.stat_hash_counter;
        self.stat_hash_counter = 0;
        n
    }

    /// The host's decisions after a dispatch of `wg_size` work items that
    /// took `loop_iteration_ms`, given what the coordinator published
    /// meanwhile and what the kernel wrote to `params_out`.
    ///
    /// A new head drops the result and rewrites the head in the message. A new
    /// difficulty the mask can express replaces the current one. Otherwise a
    /// hit (`params_out[0] != NO_HIT`) becomes a candidate whose blob is the
    /// rebuilt modifiable region; the dispatch is counted, the tuner told, and
    /// one in each hundred dispatches up to `throttle_of_100` sleeps for twice
    /// the average loop time.
    pub fn after_dispatch(
        &mut self,
        loop_iteration_ms: u64,
        new_coin: Option<String>,
        new_difficulty: Option<u64>,
        params_out: &[u32],
        params_in: &[u32],
        wg_size: u64,
        now_ms: u64,
    ) -> (step: GpuStep)
        requires
            old(self).wf(),
            params_out@.len() >= 3,
            params_in@.len() == 4,
            new_coin matches Some(c) ==> encode_utf8(c@).len() == encode_utf8(old(self).previous_coin@).len(),
        ensures
            final(self).wf(),
            final(self).miner_id == old(self).miner_id,
            final(self).loop_ms == (old(self).loop_ms as int + loop_iteration_ms as int) / 2,
            step.discarded == new_coin is Some,
            new_coin matches Some(c) ==> {
                &&& final(self).previous_coin == c
                &&& final(self).message@ == coin_prefix() + encode_utf8(c@)
                    + old(self).message@.subrange(old(self).modifiable_start as int, OCL_MESSAGE_LEN as int)
                &&& step.candidate is None
                &&& step.sleep_ms == 0
                &&& final(self).loop_iterations == old(self).loop_iterations
            },
            new_coin is None ==> {
                &&& final(self).previous_coin == old(self).previous_coin
                &&& final(self).num_zeros == match new_difficulty {
                    Some(d) => if 8 <= d < 16 { d } else { old(self).num_zeros },
                    None => old(self).num_zeros,
                }
                &&& (step.candidate is Some <==> params_out@[0] != NO_HIT)
                &&& step.candidate matches Some(c) ==> {
                    &&& c.previous_coin == old(self).previous_coin
                    &&& c.num_zeros == final(self).num_zeros
                    &&& c.blob@ == kernel_message(
                        old(self).message@,
                        old(self).modifiable_start as int,
                        old(self).modifiable_end as int,
                        params_out@[0],
                        params_out@[1],
                        params_out@[2],
                        params_in@.subrange(1, 4),
                    ).subrange(old(self).modifiable_start as int, old(self).modifiable_end as int)
                    &&& coin_prefix() + encode_utf8(c.previous_coin@) + c.blob@ + encode_utf8(old(self).miner_id@)
                        == kernel_message(
                        old(self).message@,
                        old(self).modifiable_start as int,
                        old(self).modifiable_end as int,
                        params_out@[0],
                        params_out@[1],
                        params_out@[2],
                        params_in@.subrange(1, 4),
                    )
                }
                &&& final(self).loop_iterations == if old(self).loop_iterations < u64::MAX {
                    old(self).loop_iterations + 1
                } else {
                    old(self).loop_iterations as int
                }
                &&& step.sleep_ms == if final(self).loop_iterations % 100 < old(self).throttle_of_100 {
                    if final(self).loop_ms <= u64::MAX / 2 { 2 * final(self).loop_ms } else { u64::MAX as int }
                } else {
                    0
                }
            },
    {
        self.loop_ms = self.loop_ms / 2 + loop_iteration_ms / 2 + (self.loop_ms % 2 + loop_iteration_ms % 2) / 2;
        self.tuner.record_time(loop_iteration_ms);
        match new_coin {
            Some(c) => {
                let bytes = c.as_str().as_bytes_vec();
                let mut m = COIN_PREFIX_STR.as_bytes_vec();
                m.extend_from_slice(bytes.as_slice());
                m.extend_from_slice(&self.message.as_slice()[self.modifiable_start..OCL_MESSAGE_LEN]);
                let ghost old_msg = self.message@;
                self.message = m;
                proof {
                    assert(self.message@.subrange(0, self.modifiable_start as int) =~= coin_prefix() + bytes@);
                    assert(self.message@.subrange(self.modifiable_end as int, OCL_MESSAGE_LEN as int)
                        =~= old_msg.subrange(self.modifiable_end as int, OCL_MESSAGE_LEN as int));
                }
                self.previous_coin = c;
                return GpuStep { discarded: true, candidate: None, sleep_ms: 0 };
            },
            None => {},
        }
        match new_difficulty {
            Some(d) => {
                if 8 <= d && d < 16 {
                    self.num_zeros = d;
                    self.word2_mask = num_zeros_to_word2_mask(d);
                }
            },
            None => {},
        }
        let candidate = if params_out[0] != NO_HIT {
            let r = &params_in[1..4];
            let blob = message_for_id(
                self.message.as_slice(),
                self.modifiable_start,
                self.modifiable_end,
                params_out[0],
                params_out[1],
                params_out[2],
                r,
            );
            proof {
                lemma_reconstruction_matches_kernel(
                    self.message@,
                    self.modifiable_start as int,
                    self.modifiable_end as int,
                    params_out@[0],
                    params_out@[1],
                    params_out@[2],
                    r@,
                );
                assert(r@ == params_in@.subrange(1, 4));
            }
            Some(Coin { previous_coin: self.previous_coin.clone(), num_zeros: self.num_zeros, blob })
        } else {
            None
        };
        self.loop_iterations = self.loop_iterations.saturating_add(1);
        let nhashes: u64 = if wg_size <= u64::MAX / (OCL_N_LOOPS * OCL_N_LOOPS_2) {
            OCL_N_LOOPS * OCL_N_LOOPS_2 * wg_size
        } else {
            u64::MAX
        };
        self.stat_hash_counter = self.stat_hash_counter.saturating_add(nhashes);
        self.tuner.record_dispatch(nhashes, now_ms);
        let sleep_ms: u64 = if self.loop_iterations % 100 < self.throttle_of_100 {
            if self.loop_ms <= u64::MAX / 2 { 2 * self.loop_ms } else { u64::MAX }
        } else {
            0
        };
        GpuStep { discarded: false, candidate, sleep_ms }
    }
}

/// Word `k` of a digest, little-endian.
pub open spec fn digest_word(d: Seq<u8>, k: int) -> u32 {
    (d[4 * k] as u32) | ((d[4 * k + 1] as u32) << 8u32) | ((d[4 * k + 2] as u32) << 16u32)
        | ((d[4 * k + 3] as u32) << 24u32)
}

/// A digest passes the kernel's test (first word zero, second word zero
/// under the mask) exactly when it begins with `num_zeros` zero nibbles.
pub proof fn lemma_word2_mask_tests_zero_nibbles(d: Seq<u8>, num_zeros: u64)
    requires
        d.len() == 16,
        8 <= num_zeros < 16,
    ensures
        (digest_word(d, 0) == 0 && digest_word(d, 1) & word2_mask(num_zeros) == 0)
            <==> hash_has_zero_nibbles(d, num_zeros as int),
{
    let (b0, b1, b2, b3) = (d[0], d[1], d[2], d[3]);
    let (b4, b5, b6, b7) = (d[4], d[5], d[6], d[7]);
    let w0 = digest_word(d, 0);
    assert(w0 == (b0 as u32) | ((b1 as u32) << 8u32) | ((b2 as u32) << 16u32) | ((b3 as u32) << 24u32));
    assert(w0 == 0 <==> (b0 == 0 && b1 == 0 && b2 == 0 && b3 == 0)) by (bit_vector)
        requires
            w0 == (b0 as u32) | ((b1 as u32) << 8u32) | ((b2 as u32) << 16u32) | ((b3 as u32) << 24u32),
    ;
    let w = digest_word(d, 1);
    assert(w == (b4 as u32) | ((b5 as u32) << 8u32) | ((b6 as u32) << 16u32) | ((b7 as u32) << 24u32));
    assert(
        (w & 0x0u32 == 0)
        && (w & 0xF0u32 == 0 <==> b4 < 16)
        && (w & 0xFFu32 == 0 <==> b4 == 0)
        && (w & 0xF0FFu32 == 0 <==> (b4 == 0 && b5 < 16))
        && (w & 0xFFFFu32 == 0 <==> (b4 == 0 && b5 == 0))
        && (w & 0xF0FFFFu32 == 0 <==> (b4 == 0 && b5 == 0 && b6 < 16))
        && (w & 0xFFFFFFu32 == 0 <==> (b4 == 0 && b5 == 0 && b6 == 0))
        && (w & 0xF0FFFFFFu32 == 0 <==> (b4 == 0 && b5 == 0 && b6 == 0 && b7 < 16))
    ) by (bit_vector)
        requires
            w == (b4 as u32) | ((b5 as u32) << 8u32) | ((b6 as u32) << 16u32) | ((b7 as u32) << 24u32),
    ;
    let n = num_zeros as int;
    assert(word2_mask(num_zeros) == seq![0x0u32, 0xF0, 0xFF, 0xF0FF, 0xFFFF, 0xF0FFFF, 0xFFFFFF, 0xF0FFFFFF][n - 8]);
    if hash_has_zero_nibbles(d, n) {
        assert(d[0] == 0 && d[1] == 0 && d[2] == 0 && d[3] == 0);
        if n >= 10 { assert(d[4] == 0); }
        if n >= 12 { assert(d[5] == 0); }
        if n >= 14 { assert(d[6] == 0); }
    }
    if digest_word(d, 0) == 0 && w & word2_mask(num_zeros) == 0 {
        assert forall|i: int| 0 <= i < n / 2 implies d[i] == 0 by {
            if i < 4 {
                assert(d[i] == 0);
            }
        }
    }
}

} // verus!
