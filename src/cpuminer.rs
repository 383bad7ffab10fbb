use vstd::prelude::*;
use crate::digest::{md5, md5_of, MD5_BLOCK_LEN};
use crate::entropy::{ssl_random_bytes, thread_random_bytes, thread_random_u32};

verus! {

/// Most MD5 blocks a CPU worker's blob may span.
pub const MINER_MAX_BLOCKS: usize = 8;

/// `arrayvec::ArrayVec`, the fixed-capacity buffer that holds a CPU
/// worker's blob.
#[verifier::external_type_specification]
#[verifier::external_body]
#[verifier::reject_recursive_types(T)]
pub struct ExArrayVec<T, const CAP: usize>(arrayvec::ArrayVec<T, CAP>);

/// `arrayvec::CapacityError`, returned when a buffer would overflow.
#[verifier::external_type_specification]
#[verifier::external_body]
#[verifier::reject_recursive_types(T)]
pub struct ExCapacityError<T>(arrayvec::CapacityError<T>);

/// The blob arena: at most `MINER_MAX_BLOCKS` blocks of bytes.
pub type BlobArena = arrayvec::ArrayVec<u8, 512>;

/// The bytes a blob arena holds, in order.
pub uninterp spec fn arena_bytes(a: arrayvec::ArrayVec<u8, 512>) -> Seq<u8>;

/// Relies on `ArrayVec::new`: an empty buffer.
#[verifier::external_body]
fn arena_new() -> (r: BlobArena)
    ensures
        arena_bytes(r) == Seq::<u8>::empty(),
{
    arrayvec::ArrayVec::new()
}

/// Relies on `ArrayVec::try_extend_from_slice`: when the bytes fit in the
/// remaining capacity they are appended, and otherwise the buffer is left as
/// it was and `CapacityError` returned.
#[verifier::external_body]
fn arena_extend(a: &mut BlobArena, b: &[u8]) -> (r: Result<(), arrayvec::CapacityError>)
    ensures
        r is Ok <==> arena_bytes(*old(a)).len() + b@.len() <= 512,
        r is Ok ==> arena_bytes(*final(a)) == arena_bytes(*old(a)) + b@,
        r is Err ==> arena_bytes(*final(a)) == arena_bytes(*old(a)),
{
    a.try_extend_from_slice(b)
}

/// Relies on `ArrayVec::as_slice`: the bytes held, in order.
#[verifier::external_body]
fn arena_slice(a: &BlobArena) -> (r: &[u8])
    ensures
        r@ == arena_bytes(*a),
{
    a.as_slice()
}

/// Relies on `ArrayVec::as_mut_slice`: overwrites the byte at `i`, which the
/// slice index requires to be held.
#[verifier::external_body]
fn arena_set(a: &mut BlobArena, i: usize, v: u8)
    requires
        i < arena_bytes(*old(a)).len(),
    ensures
        arena_bytes(*final(a)) == arena_bytes(*old(a)).update(i as int, v),
{
    a.as_mut_slice()[i] = v;
}

/// Bytes of the blob's fixed head: a 16-byte timestamp and 16 random bytes.
pub const BLOB_HEAD_LEN: usize = 32;

/// Leading zero nibbles the CPU worker searches for: four zero bytes. The
/// coordinator checks the service's own difficulty before claiming.
pub const CPU_NUM_ZEROS: u64 = 8;

/// Whether a digest begins with four zero bytes.
pub open spec fn is_cpu_hit(d: Seq<u8>) -> bool {
    d.len() >= 4 && d[0] == 0 && d[1] == 0 && d[2] == 0 && d[3] == 0
}

/// The blob after the first `k` steps of a sweep over `b`: step `j` adds
/// `j / len` to byte `j % len`, modulo 256.
pub open spec fn swept(b: Seq<u8>, k: nat) -> Seq<u8>
    decreases k,
{
    if k == 0 || b.len() == 0 {
        b
    } else {
        let p = swept(b, (k - 1) as nat);
        let j = k - 1;
        let i = j % b.len() as int;
        p.update(i, ((p[i] as int + j / b.len() as int) % 256) as u8)
    }
}

proof fn lemma_swept_len(b: Seq<u8>, k: nat)
    ensures
        swept(b, k).len() == b.len(),
    decreases k,
{
    if k > 0 && b.len() > 0 {
        lemma_swept_len(b, (k - 1) as nat);
    }
}

/// Whether the message for blob state `k` of a sweep over `b` is a hit.
pub open spec fn sweep_hit(prefix: Seq<u8>, b: Seq<u8>, suffix: Seq<u8>, k: nat) -> bool {
    is_cpu_hit(md5_of(prefix + swept(b, k) + suffix))
}

/// The filler length the CPU worker draws from the word `rnd`: a sample
/// below eight blocks, pulled back a block where it would crowd the arena,
/// then padded so that the whole message is a whole number of blocks; a
/// final block comes off again where the blob would pass the arena cap.
pub open spec fn planned_filler(rnd: u32, prefix_len: int, suffix_len: int) -> int {
    let cap = (MD5_BLOCK_LEN * MINER_MAX_BLOCKS) as int;
    let s0 = rnd as int % cap;
    let s = if s0 + BLOB_HEAD_LEN > MD5_BLOCK_LEN * (MINER_MAX_BLOCKS - 1) { s0 - 64 } else { s0 };
    let cur = prefix_len + BLOB_HEAD_LEN + s + suffix_len;
    let f = s + 64 - cur % 64;
    if BLOB_HEAD_LEN + f > cap { f - 64 } else { f }
}

pub struct CpuMinerFunction {}

impl CpuMinerFunction {
    pub fn new() -> CpuMinerFunction {
        CpuMinerFunction {}
    }

    /// The filler length for the draw `rnd`: the whole message
    /// `prefix || blob || suffix` is a whole number of MD5 blocks and the blob
    /// stays within `MINER_MAX_BLOCKS` blocks.
    pub fn filler_len(&self, rnd: u32, prefix_len: usize, suffix_len: usize) -> (f: usize)
        requires
            prefix_len <= MD5_BLOCK_LEN,
            suffix_len <= MD5_BLOCK_LEN,
        ensures
            f == planned_filler(rnd, prefix_len as int, suffix_len as int),
            (prefix_len + BLOB_HEAD_LEN + f + suffix_len) % (MD5_BLOCK_LEN as int) == 0,
            BLOB_HEAD_LEN + f <= MD5_BLOCK_LEN * MINER_MAX_BLOCKS,
    {
        let cap: usize = MD5_BLOCK_LEN * MINER_MAX_BLOCKS;
        let mut s: usize = (rnd % (cap as u32)) as usize;
        if s + BLOB_HEAD_LEN > MD5_BLOCK_LEN * (MINER_MAX_BLOCKS - 1) {
            s = s - MD5_BLOCK_LEN;
        }
        let cur = prefix_len + BLOB_HEAD_LEN + s + suffix_len;
        let f = s + MD5_BLOCK_LEN - cur % MD5_BLOCK_LEN;
        if BLOB_HEAD_LEN + f > cap {
            f - MD5_BLOCK_LEN
        } else {
            f
        }
    }

    /// Runs one sweep over `blob`: for `x` in `0..256` and each byte index
    /// in turn, hashes `prefix || blob || suffix`, stops at the first digest
    /// with four zero bytes, and otherwise adds `x` to that byte (mod 256).
    /// Returns whether it stopped on a hit and how many misses it hashed; the
    /// blob is left as it was when hashed last.
    pub fn sweep(&self, prefix: &[u8], blob: &mut BlobArena, suffix: &[u8]) -> (r: Result<(bool, u64), openssl::error::ErrorStack>)
        requires
            arena_bytes(*old(blob)).len() <= MD5_BLOCK_LEN * MINER_MAX_BLOCKS,
        ensures
            r matches Ok((found, n)) ==> {
                &&& arena_bytes(*final(blob)) == swept(arena_bytes(*old(blob)), n as nat)
                &&& forall|j: nat| j < n ==> !#[trigger] sweep_hit(prefix@, arena_bytes(*old(blob)), suffix@, j)
                &&& found ==> n < 256 * arena_bytes(*old(blob)).len() && sweep_hit(prefix@, arena_bytes(*old(blob)), suffix@, n as nat)
                &&& !found ==> n == 256 * arena_bytes(*old(blob)).len()
            },
    {
        let ghost b0 = arena_bytes(*blob);
        let len = arena_slice(blob).len();
        let total: usize = 256 * len;
        let mut k: usize = 0;
        while k < total
            invariant
                b0 == arena_bytes(*old(blob)),
                len == b0.len(),
                len <= MD5_BLOCK_LEN * MINER_MAX_BLOCKS,
                total == 256 * len,
                k <= total,
                arena_bytes(*blob) == swept(b0, k as nat),
                forall|j: nat| j < k ==> !#[trigger] sweep_hit(prefix@, b0, suffix@, j),
            decreases total - k,
        {
            proof {
                lemma_swept_len(b0, k as nat);
            }
            let mut msg = vstd::slice::slice_to_vec(prefix);
            msg.extend_from_slice(arena_slice(blob));
            msg.extend_from_slice(suffix);
            assert(msg@ =~= prefix@ + swept(b0, k as nat) + suffix@);
            let h = match md5(msg.as_slice()) {
                Ok(h) => h,
                Err(e) => return Err(e),
            };
            if h[0] == 0 && h[1] == 0 && h[2] == 0 && h[3] == 0 {
                assert(sweep_hit(prefix@, b0, suffix@, k as nat));
                return Ok((true, k as u64));
            }
            assert(!sweep_hit(prefix@, b0, suffix@, k as nat));
            assert((k / len) < 256) by (nonlinear_arith)
                requires
                    k < 256 * len,
                    len > 0,
            ;
            let x: u8 = (k / len) as u8;
            let idx: usize = k % len;
            let v = arena_slice(blob)[idx];
            arena_set(blob, idx, v.wrapping_add(x));
            proof {
                assert(v.wrapping_add(x) == ((v as int + k as int / len as int) % 256) as u8);
                assert(arena_bytes(*blob) == swept(b0, (k + 1) as nat));
            }
            k = k + 1;
        }
        Ok((false, k as u64))
    }

    /// One outer pass of the CPU worker: draws the blob (the 16-byte
    /// little-endian `stamp`, 16 bytes from OpenSSL, and filler from the
    /// thread's generator) and sweeps it. On a hit, returns the blob, whose
    /// message is a whole number of MD5 blocks and hashes to four zero bytes;
    /// either way, the number of misses hashed.
    pub fn search_pass(&self, prefix: &[u8], suffix: &[u8], stamp: u128) -> (r: Result<(Option<Vec<u8>>, u64), openssl::error::ErrorStack>)
        requires
            prefix@.len() <= MD5_BLOCK_LEN,
            suffix@.len() <= MD5_BLOCK_LEN,
        ensures
            r matches Ok((Some(b), n)) ==> {
                &&& is_cpu_hit(md5_of(prefix@ + b@ + suffix@))
                &&& (prefix@.len() + b@.len() + suffix@.len()) % (MD5_BLOCK_LEN as nat) == 0
                &&& b@.len() <= MD5_BLOCK_LEN * MINER_MAX_BLOCKS
            },
            r matches Ok((None, n)) ==> n % 256 == 0 && n >= 256 * BLOB_HEAD_LEN,
            r matches Ok((found, n)) ==> exists|x: Seq<u8>| {
                let b0 = vstd::bytes::spec_u128_to_le_bytes(stamp) + x;
                &&& #[trigger] x.len() >= 16
                &&& (prefix@.len() + b0.len() + suffix@.len()) % (MD5_BLOCK_LEN as nat) == 0
                &&& b0.len() <= MD5_BLOCK_LEN * MINER_MAX_BLOCKS
                &&& forall|j: nat| j < n ==> !#[trigger] sweep_hit(prefix@, b0, suffix@, j)
                &&& found matches Some(b) ==> b@ == swept(b0, n as nat) && sweep_hit(prefix@, b0, suffix@, n as nat)
                &&& found is None ==> n == 256 * b0.len()
            },
    {
        proof {
            vstd::bytes::lemma_auto_spec_u128_to_from_le_bytes();
        }
        let rnd = thread_random_u32();
        let f = self.filler_len(rnd, prefix.len(), suffix.len());
        let st = vstd::bytes::u128_to_le_bytes(stamp);
        let ssl = match ssl_random_bytes(16) {
            Ok(v) => v,
            Err(e) => return Err(e),
        };
        let filler = thread_random_bytes(f);
        let mut blob = arena_new();
        let r1 = arena_extend(&mut blob, st.as_slice());
        let r2 = arena_extend(&mut blob, ssl.as_slice());
        let r3 = arena_extend(&mut blob, filler.as_slice());
        proof {
            assert(r1 is Ok && r2 is Ok && r3 is Ok);
        }
        let ghost b0 = arena_bytes(blob);
        let ghost x = ssl@ + filler@;
        assert(b0 =~= vstd::bytes::spec_u128_to_le_bytes(stamp) + x);
        match self.sweep(prefix, &mut blob, suffix) {
            Ok((found, n)) => {
                proof {
                    lemma_swept_len(b0, n as nat);
                    assert(x.len() >= 16);
                }
                if found {
                    Ok((Some(vstd::slice::slice_to_vec(arena_slice(&blob))), n))
                } else {
                    Ok((None, n))
                }
            },
            Err(e) => Err(e),
        }
    }
}

} // verus!
