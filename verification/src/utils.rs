use vstd::prelude::*;

verus! {

/// The SHA-256 digest of a byte sequence, left abstract: the library never
/// states which bytes come out, only that the digest is a function of the
/// input alone and is 32 bytes wide.
pub uninterp spec fn sha256_of(bytes: Seq<u8>) -> Seq<u8>;

/// Relies on sha2::Sha256 (the `Digest::digest` one-shot interface): the
/// digest is a pure function of the input bytes and is always 32 bytes long.
#[verifier::external_body]
pub fn sha256_digest(bytes: &Vec<u8>) -> (r: Vec<u8>)
    ensures
        r@ == sha256_of(bytes@),
        r@.len() == 32,
{
    <sha2::Sha256 as sha2::Digest>::digest(bytes.as_slice()).to_vec()
}

/// Relies on rand's thread_rng with the Alphanumeric distribution: each
/// sampled byte is an ASCII letter or digit, so the collected string holds
/// exactly `length` characters. Nothing is promised about which characters
/// come out: they are random.
#[verifier::external_body]
pub fn random_id(length: usize) -> (r: String)
    ensures
        r@.len() == length,
{
    let mut rng = rand::thread_rng();
    let mut out = String::new();
    for _ in 0..length {
        out.push(char::from(rand::Rng::sample(&mut rng, rand::distributions::Alphanumeric)));
    }
    out
}

/// Relies on std's SystemTime: seconds since the Unix epoch, by the machine
/// clock. A clock set before the epoch yields 0 rather than a panic. Nothing
/// more is promised: the clock is not a function of anything the library sees.
#[verifier::external_body]
pub fn get_unix_timestamp() -> u64 {
    match std::time::SystemTime::now().duration_since(std::time::SystemTime::UNIX_EPOCH) {
        Ok(d) => d.as_secs(),
        Err(_) => 0,
    }
}

} // verus!
