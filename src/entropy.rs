use vstd::prelude::*;

verus! {

/// Relies on `rand::rngs::OsRng` through `RngCore::next_u32`: a word from
/// the operating system's generator. Nothing is known of its value.
#[verifier::external_body]
pub(crate) fn os_random_u32() -> (r: u32) {
    rand::RngCore::next_u32(&mut rand::rngs::OsRng)
}

/// Relies on `rand::thread_rng` through `RngCore::next_u32`: a word from
/// the thread's generator. Nothing is known of its value.
#[verifier::external_body]
pub(crate) fn thread_random_u32() -> (r: u32) {
    rand::RngCore::next_u32(&mut rand::thread_rng())
}

/// Relies on `rand::thread_rng` through `RngCore::fill_bytes`: `n` bytes
/// from the thread's generator.
#[verifier::external_body]
pub(crate) fn thread_random_bytes(n: usize) -> (r: Vec<u8>)
    ensures
        r@.len() == n,
{
    let mut v = vec![0u8; n];
    rand::RngCore::fill_bytes(&mut rand::thread_rng(), &mut v);
    v
}

/// Relies on `openssl::rand::rand_bytes`: on success, `n` bytes from
/// OpenSSL's generator. It asserts that the buffer's length fits a C `int`.
#[verifier::external_body]
pub(crate) fn ssl_random_bytes(n: usize) -> (r: Result<Vec<u8>, openssl::error::ErrorStack>)
    requires
        n <= i32::MAX,
    ensures
        r is Ok ==> r->Ok_0@.len() == n,
{
    let mut v = vec![0u8; n];
    openssl::rand::rand_bytes(&mut v).map(|_| v)
}

} // verus!
