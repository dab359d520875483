use vstd::prelude::*;
use base64::Engine;
use rand::Rng;

verus! {

/// The ASCII decimal digits of `n`, most significant first, without leading zeros.
pub open spec fn decimal_digits(n: nat) -> Seq<u8>
    decreases n,
{
    if n < 10 {
        seq![(48 + n) as u8]
    } else {
        decimal_digits(n / 10).push((48 + n % 10) as u8)
    }
}

pub open spec fn pow10(k: nat) -> nat
    decreases k,
{
    if k == 0 {
        1
    } else {
        10 * pow10((k - 1) as nat)
    }
}

/// Characters of the URL-safe base64 alphabet.
pub open spec fn url_safe_char(c: char) -> bool {
    ('A' <= c && c <= 'Z') || ('a' <= c && c <= 'z') || ('0' <= c && c <= '9') || c == '-'
        || c == '_'
}

pub open spec fn url_safe(s: Seq<char>) -> bool {
    forall|i: int| 0 <= i < s.len() ==> url_safe_char(#[trigger] s[i])
}

/// The length of an unpadded base64 text for `n` input bytes.
pub open spec fn unpadded_len(n: nat) -> nat {
    4 * (n / 3) + if n % 3 == 1 {
        2nat
    } else if n % 3 == 2 {
        3nat
    } else {
        0nat
    }
}

/// The URL-safe, unpadded base64 text of the bytes `b`.
pub uninterp spec fn base64_url_unpadded(b: Seq<u8>) -> Seq<char>;

/// Relies on base64's `URL_SAFE_NO_PAD` engine: `encode` writes the input with the
/// alphabet `A-Z a-z 0-9 - _`, adds no padding, and so produces `encoded_len`
/// characters; it panics only when that length overflows, which short inputs rule out.
#[verifier::external_body]
fn encode_url_safe(b: &[u8]) -> (r: String)
    requires
        b@.len() <= 64,
    ensures
        r@ == base64_url_unpadded(b@),
        r@.len() == unpadded_len(b@.len() as nat),
        url_safe(r@),
{
    base64::engine::general_purpose::URL_SAFE_NO_PAD.encode(b)
}

/// Relies on rand's `thread_rng().gen_range(0..bound)`: a value drawn from the
/// range; it panics only on an empty range.
#[verifier::external_body]
fn random_below(bound: u32) -> (r: u32)
    requires
        bound > 0,
    ensures
        r < bound,
{
    rand::thread_rng().gen_range(0..bound)
}

proof fn lemma_digits_len(n: nat, k: nat)
    requires
        k >= 1,
        n < pow10(k),
    ensures
        decimal_digits(n).len() <= k,
    decreases k,
{
    if n >= 10 {
        assert(k >= 2) by {
            if k == 1 {
                reveal_with_fuel(pow10, 2);
            }
        }
        assert(n / 10 < pow10((k - 1) as nat));
        lemma_digits_len(n / 10, (k - 1) as nat);
    }
}

/// The decimal text of `n` as ASCII bytes.
pub fn decimal_text(n: u32) -> (r: Vec<u8>)
    ensures
        r@ == decimal_digits(n as nat),
    decreases n,
{
    if n < 10 {
        let d: u8 = 48 + n as u8;
        vec![d]
    } else {
        let mut v = decimal_text(n / 10);
        let d: u8 = 48 + (n % 10) as u8;
        v.push(d);
        v
    }
}

/// The link identifier derived from the number `n`: the URL-safe, unpadded
/// base64 text of `n`'s decimal digits.
pub fn id_from_number(n: u32) -> (r: String)
    ensures
        r@ == base64_url_unpadded(decimal_digits(n as nat)),
        r@.len() > 0,
        url_safe(r@),
{
    let digits = decimal_text(n);
    proof {
        reveal_with_fuel(pow10, 11);
        assert(pow10(10) == 10000000000);
        lemma_digits_len(n as nat, 10);
    }
    encode_url_safe(digits.as_slice())
}

/// A fresh link identifier, derived from a random number below `u32::MAX`.
pub fn generate_id() -> (r: String)
    ensures
        r@.len() > 0,
        url_safe(r@),
        exists|n: u32| n < u32::MAX && r@ == base64_url_unpadded(decimal_digits(n as nat)),
{
    let n = random_below(u32::MAX);
    id_from_number(n)
}

} // verus!
