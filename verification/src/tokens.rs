//! Session token codec: generation of opaque bearer tokens and the one-way
//! digest under which a token is stored and looked up.

use vstd::prelude::*;

verus! {

/// What sha2's SHA-256 returns for a given string. The digest is a pure
/// function of the input; the algorithm itself is relied upon, not restated.
pub uninterp spec fn sha256_of(s: Seq<char>) -> Seq<u8>;

/// Relies on sha2's `Sha256::digest`: the 32-byte SHA-256 digest of the
/// input, a deterministic function of the input alone.
#[verifier::external_body]
fn sha256_digest(token: &str) -> (r: Vec<u8>)
    ensures
        r@ == sha256_of(token@),
        r@.len() == 32,
{
    <sha2::Sha256 as sha2::Digest>::digest(token).to_vec()
}

/// Relies on std's `String::push`: appends exactly one character.
#[verifier::external_body]
fn push_char(s: &mut String, c: char)
    ensures
        final(s)@ == old(s)@.push(c),
{
    s.push(c);
}

/// The lower-case hexadecimal digit for a value below sixteen.
pub open spec fn hex_digit(n: int) -> char {
    if n == 0 { '0' } else if n == 1 { '1' } else if n == 2 { '2' }
    else if n == 3 { '3' } else if n == 4 { '4' } else if n == 5 { '5' }
    else if n == 6 { '6' } else if n == 7 { '7' } else if n == 8 { '8' }
    else if n == 9 { '9' } else if n == 10 { 'a' } else if n == 11 { 'b' }
    else if n == 12 { 'c' } else if n == 13 { 'd' } else if n == 14 { 'e' }
    else { 'f' }
}

fn hex_char(n: u8) -> (c: char)
    requires
        n < 16,
    ensures
        c == hex_digit(n as int),
{
    if n == 0 { '0' } else if n == 1 { '1' } else if n == 2 { '2' }
    else if n == 3 { '3' } else if n == 4 { '4' } else if n == 5 { '5' }
    else if n == 6 { '6' } else if n == 7 { '7' } else if n == 8 { '8' }
    else if n == 9 { '9' } else if n == 10 { 'a' } else if n == 11 { 'b' }
    else if n == 12 { 'c' } else if n == 13 { 'd' } else if n == 14 { 'e' }
    else { 'f' }
}

/// The lower-case hexadecimal rendering of a byte string, two digits per
/// byte, most significant digit first.
pub open spec fn hex_of(bytes: Seq<u8>) -> Seq<char>
    decreases bytes.len(),
{
    if bytes.len() == 0 {
        Seq::empty()
    } else {
        hex_of(bytes.drop_last())
            + seq![hex_digit((bytes.last() / 16) as int), hex_digit((bytes.last() % 16) as int)]
    }
}

/// Renders a byte string in lower-case hexadecimal.
pub fn bytes_to_hex(bytes: &Vec<u8>) -> (r: String)
    ensures
        r@ == hex_of(bytes@),
        r@.len() == 2 * bytes@.len(),
{
    let mut r = String::new();
    let mut i: usize = 0;
    proof {
        assert(bytes@.take(0) =~= Seq::<u8>::empty());
    }
    while i < bytes.len()
        invariant
            i <= bytes@.len(),
            r@ == hex_of(bytes@.take(i as int)),
            r@.len() == 2 * i,
        decreases bytes@.len() - i,
    {
        let b = bytes[i];
        push_char(&mut r, hex_char(b / 16));
        push_char(&mut r, hex_char(b % 16));
        i += 1;
        proof {
            assert(bytes@.take(i as int).drop_last() =~= bytes@.take(i - 1));
            assert(bytes@.take(i as int).last() == bytes@[i - 1]);
        }
    }
    proof {
        assert(bytes@.take(bytes@.len() as int) =~= bytes@);
    }
    r
}

/// The digest under which a session token is persisted and looked up:
/// the lower-case hex rendering of the token's SHA-256 digest.
pub open spec fn token_digest(t: Seq<char>) -> Seq<char> {
    hex_of(sha256_of(t))
}

/// Computes the stored digest of a bearer token. Deterministic: equal
/// tokens always map to equal digests; the token itself is never persisted.
pub fn hash_token(token: &str) -> (r: String)
    ensures
        r@ == token_digest(token@),
        r@.len() == 64,
{
    let digest = sha256_digest(token);
    bytes_to_hex(&digest)
}

/// Whether a character is one of the sixty-two ASCII alphanumerics.
pub open spec fn is_alphanumeric_char(c: char) -> bool {
    ('a' as u32) <= (c as u32) <= ('z' as u32)
        || ('A' as u32) <= (c as u32) <= ('Z' as u32)
        || ('0' as u32) <= (c as u32) <= ('9' as u32)
}

/// Relies on rand's `Alphanumeric` distribution sampled from the thread's
/// CSPRNG: sixty-four characters, each drawn from a-z, A-Z, 0-9. Nothing
/// else is promised of the value: it is random.
#[verifier::external_body]
pub fn generate_token() -> (r: String)
    ensures
        r@.len() == 64,
        forall|i: int| 0 <= i < 64 ==> is_alphanumeric_char(#[trigger] r@[i]),
{
    let mut rng = rand::rng();
    rand::distr::SampleString::sample_string(&rand::distr::Alphanumeric, &mut rng, 64)
}

/// Law: the stored digest is a pure function of the token, so two calls on
/// equal tokens always agree.
pub proof fn lemma_digest_deterministic(t1: Seq<char>, t2: Seq<char>)
    requires
        t1 == t2,
    ensures
        token_digest(t1) == token_digest(t2),
{
}

} // verus!
