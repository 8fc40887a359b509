//! Pseudonymous identity tokens.
//!
//! A member identifier is never stored as is: it is hashed (SHA-256) into a
//! token, and a token is only ever compared with the tokens of candidates.
use vstd::prelude::*;
use vstd::string::StringSliceAdditionalSpecFns;

verus! {

/// What the digest of `bytes` renders to: the token of an identifier whose
/// bytes are `bytes`.
pub uninterp spec fn identity_token(bytes: Seq<u8>) -> Seq<char>;

/// Largest input that SHA-256 accepts, in bytes (its bit length must fit in 64 bits).
pub const MAX_DIGEST_INPUT: u64 = 0x1fff_ffff_ffff_ffff;

/// Relies on ring's `digest::Context` with `SHA256` (`new`, `update`, `finish`)
/// and on the `Debug` rendering of the resulting `Digest`: the text depends on
/// the bytes alone. `finish` panics once the bit length overflows 64 bits.
#[verifier::external_body]
fn digest_token(bytes: &[u8]) -> (r: String)
    requires
        bytes@.len() <= MAX_DIGEST_INPUT,
    ensures
        r@ == identity_token(bytes@),
{
    let mut context = ring::digest::Context::new(&ring::digest::SHA256);
    context.update(bytes);
    format!("{:X?}", context.finish())
}

/// The token of a raw identifier, over its UTF-8 bytes.
pub fn tokenize(raw_id: &str) -> (r: String)
    requires
        raw_id.spec_bytes().len() <= MAX_DIGEST_INPUT,
    ensures
        r@ == identity_token(raw_id.spec_bytes()),
{
    digest_token(raw_id.as_bytes())
}

/// The decimal rendering of `n` in ASCII digits, most significant first.
pub open spec fn decimal_digits(n: nat) -> Seq<u8>
    decreases n,
{
    if n < 10 {
        seq![(48 + n) as u8]
    } else {
        decimal_digits(n / 10).push((48 + n % 10) as u8)
    }
}

/// The token of a member known by its numeric identifier, which hashes as
/// its decimal rendering.
pub open spec fn member_token(id: u64) -> Seq<char> {
    identity_token(decimal_digits(id as nat))
}

pub open spec fn ten_pow(k: nat) -> nat
    decreases k,
{
    if k == 0 {
        1
    } else {
        10 * ten_pow((k - 1) as nat)
    }
}

proof fn lemma_decimal_len(n: nat, k: nat)
    requires
        1 <= k,
        n < ten_pow(k),
    ensures
        decimal_digits(n).len() <= k,
    decreases n,
{
    if n >= 10 {
        let p = ten_pow((k - 1) as nat);
        assert(k >= 2) by {
            if k == 1 {
                assert(ten_pow(0) == 1);
            }
        }
        assert(n / 10 < p) by (nonlinear_arith)
            requires
                n < 10 * p,
        ;
        lemma_decimal_len(n / 10, (k - 1) as nat);
    }
}

/// Every `u64` renders in at most twenty digits.
proof fn lemma_u64_decimal_len(n: u64)
    ensures
        decimal_digits(n as nat).len() <= 20,
{
    reveal_with_fuel(ten_pow, 21);
    assert(ten_pow(20) == 100_000_000_000_000_000_000);
    lemma_decimal_len(n as nat, 20);
}

/// The ASCII decimal digits of `n`.
pub fn decimal_bytes(n: u64) -> (r: Vec<u8>)
    ensures
        r@ == decimal_digits(n as nat),
    decreases n,
{
    if n < 10 {
        let mut v: Vec<u8> = Vec::new();
        v.push(48u8 + n as u8);
        v
    } else {
        let mut v = decimal_bytes(n / 10);
        v.push(48u8 + (n % 10) as u8);
        v
    }
}

/// The token of a member known by its numeric identifier.
pub fn tokenize_member(id: u64) -> (r: String)
    ensures
        r@ == member_token(id),
{
    let digits = decimal_bytes(id);
    proof {
        lemma_u64_decimal_len(id);
    }
    digest_token(digits.as_slice())
}

/// Where in `page` the first member whose token is `author_token` stands.
pub fn find_member(page: &Vec<u64>, author_token: &String) -> (r: Option<usize>)
    ensures
        match r {
            Some(i) => {
                &&& i < page@.len()
                &&& member_token(page@[i as int]) == author_token@
                &&& forall|j: int| 0 <= j < i ==> member_token(#[trigger] page@[j]) != author_token@
            },
            None => forall|j: int|
                0 <= j < page@.len() ==> member_token(#[trigger] page@[j]) != author_token@,
        },
{
    let mut i: usize = 0;
    while i < page.len()
        invariant
            i <= page@.len(),
            forall|j: int| 0 <= j < i ==> member_token(#[trigger] page@[j]) != author_token@,
        decreases page@.len() - i,
    {
        let token = tokenize_member(page[i]);
        if token == *author_token {
            return Some(i);
        }
        i += 1;
    }
    None
}

} // verus!
