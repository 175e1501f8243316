use sha2::{Digest, Sha256};
use vstd::prelude::*;

verus! {

/// Derives the identifier of a payload from its bytes.
///
/// The identifier is a function of the bytes alone: the same bytes always give
/// the same identifier.
pub trait IdGenerator {
    /// The identifier of the payload `data`.
    spec fn id_of(&self, data: Seq<u8>) -> Seq<char>;

    /// Computes the identifier of `data`.
    fn get_id(&self, data: &[u8]) -> (r: String)
        ensures
            r@ == self.id_of(data@),
    ;
}

/// A generator that gives every payload the identifier `hash`, for tests.
#[derive(Clone, Copy, Debug)]
pub struct IdGeneratorStub;

impl IdGeneratorStub {
    pub fn new() -> (r: IdGeneratorStub) {
        IdGeneratorStub
    }
}

impl IdGenerator for IdGeneratorStub {
    open spec fn id_of(&self, data: Seq<u8>) -> Seq<char> {
        "hash"@
    }

    fn get_id(&self, data: &[u8]) -> (r: String) {
        String::from_str("hash")
    }
}

/// The lower-case hexadecimal digit of `n`, which is below 16.
pub open spec fn hex_digit(n: u8) -> char {
    "0123456789abcdef"@[n as int]
}

/// Two lower-case hexadecimal digits for each byte, high nibble first.
pub open spec fn hex_of(bytes: Seq<u8>) -> Seq<char>
    decreases bytes.len(),
{
    if bytes.len() == 0 {
        Seq::empty()
    } else {
        hex_of(bytes.drop_last()).push(hex_digit(bytes.last() / 16)).push(hex_digit(bytes.last() % 16))
    }
}

/// Appends one character to `s`.
///
/// Relies on `String::push`, which appends the character at the end.
#[verifier::external_body]
fn push_char(s: &mut String, c: char)
    ensures
        final(s)@ == old(s)@.push(c),
{
    s.push(c)
}

/// Writes `bytes` as lower-case hexadecimal, two digits per byte.
pub fn hex_encode(bytes: &[u8]) -> (r: String)
    ensures
        r@ == hex_of(bytes@),
        r@.len() == 2 * bytes@.len(),
{
    let digits = "0123456789abcdef";
    proof {
        reveal_strlit("0123456789abcdef");
    }
    let mut out = String::new();
    let mut i: usize = 0;
    while i < bytes.len()
        invariant
            i <= bytes@.len(),
            digits@ == "0123456789abcdef"@,
            digits@.len() == 16,
            out@ == hex_of(bytes@.subrange(0, i as int)),
            out@.len() == 2 * i,
        decreases bytes@.len() - i,
    {
        let b = bytes[i];
        push_char(&mut out, digits.get_char((b / 16) as usize));
        push_char(&mut out, digits.get_char((b % 16) as usize));
        assert(bytes@.subrange(0, i + 1).drop_last() =~= bytes@.subrange(0, i as int));
        i = i + 1;
    }
    assert(bytes@.subrange(0, bytes@.len() as int) =~= bytes@);
    out
}

/// The SHA-256 digest of `data`.
pub uninterp spec fn sha256_of(data: Seq<u8>) -> Seq<u8>;

/// The SHA-256 digest of `data`.
///
/// Relies on `sha2::Sha256::digest`, whose output is the 32-byte digest of the input.
#[verifier::external_body]
fn sha256(data: &[u8]) -> (r: Vec<u8>)
    ensures
        r@ == sha256_of(data@),
        r@.len() == 32,
{
    Sha256::digest(data).to_vec()
}

/// The production generator: the identifier is the lower-case hexadecimal
/// SHA-256 digest of the payload, the same on every machine and in every process.
#[derive(Clone, Copy, Debug)]
pub struct HashIdGenerator;

impl HashIdGenerator {
    pub fn new() -> (r: HashIdGenerator) {
        HashIdGenerator
    }
}

impl IdGenerator for HashIdGenerator {
    open spec fn id_of(&self, data: Seq<u8>) -> Seq<char> {
        hex_of(sha256_of(data))
    }

    fn get_id(&self, data: &[u8]) -> (r: String)
        ensures
            r@.len() == 64,
    {
        let digest = sha256(data);
        hex_encode(digest.as_slice())
    }
}

/// A generator gives the same identifier every time it is asked about the same bytes.
pub proof fn lemma_id_deterministic<I: IdGenerator>(
    id_gen: I,
    data: Seq<u8>,
    first: Seq<char>,
    second: Seq<char>,
)
    requires
        first == id_gen.id_of(data),
        second == id_gen.id_of(data),
    ensures
        first == second,
{
}

/// Any two hashing generators give the same identifier for the same bytes: the
/// identifier depends on the bytes alone, not on the generator value.
pub proof fn lemma_hash_id_stable(first: HashIdGenerator, second: HashIdGenerator, data: Seq<u8>)
    ensures
        first.id_of(data) == second.id_of(data),
{
}

} // verus!
