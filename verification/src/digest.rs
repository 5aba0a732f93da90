//! SHA-256 digests in their textual forms.

use sha2::Digest;
use sha2::Sha256;
use vstd::prelude::*;
use vstd::string::*;

use crate::text::digit_char;
use crate::text::lower_hex_digit;

verus! {

/// The SHA-256 digest of `bytes`.
pub uninterp spec fn sha256(bytes: Seq<u8>) -> Seq<u8>;

/// `sha2::Sha256::digest`: the 32 bytes of the SHA-256 digest of `bytes`,
/// which depend on nothing else.
#[verifier::external_body]
fn sha256_digest(bytes: &[u8]) -> (r: Vec<u8>)
    ensures
        r@ == sha256(bytes@),
        r@.len() == 32,
{
    Sha256::digest(bytes).to_vec()
}

/// Two lower-case hexadecimal digits for each byte.
pub open spec fn hex(bytes: Seq<u8>) -> Seq<char>
    decreases bytes.len(),
{
    if bytes.len() == 0 {
        Seq::<char>::empty()
    } else {
        hex(bytes.drop_last()).push(digit_char((bytes.last() / 16) as nat)).push(
            digit_char((bytes.last() % 16) as nat),
        )
    }
}

/// Hexadecimal text has two digits for each byte, all of them lower case.
pub proof fn hex_is_lower_case_digits(bytes: Seq<u8>)
    ensures
        hex(bytes).len() == 2 * bytes.len(),
        forall|i: int| 0 <= i < hex(bytes).len() ==> lower_hex_digit(#[trigger] hex(bytes)[i]),
    decreases bytes.len(),
{
    if bytes.len() > 0 {
        hex_is_lower_case_digits(bytes.drop_last());
        let head = hex(bytes.drop_last());
        let hi = digit_char((bytes.last() / 16) as nat);
        let lo = digit_char((bytes.last() % 16) as nat);
        assert(lower_hex_digit(hi));
        assert(lower_hex_digit(lo));
        assert forall|i: int| 0 <= i < hex(bytes).len() implies lower_hex_digit(
            #[trigger] hex(bytes)[i],
        ) by {
            if i < head.len() {
                assert(hex(bytes)[i] == head[i]);
            }
        }
    }
}

fn hex_digit(d: u8) -> (r: char)
    requires
        d < 16,
    ensures
        r == digit_char(d as nat),
{
    if d < 10 {
        (48 + d) as char
    } else {
        (87 + d) as char
    }
}

/// `bytes` in lower-case hexadecimal.
pub fn hex_of(bytes: &Vec<u8>) -> (r: String)
    ensures
        r@ == hex(bytes@),
{
    let mut out = String::new();
    let mut i: usize = 0;
    while i < bytes.len()
        invariant
            i <= bytes.len(),
            out@ == hex(bytes@.take(i as int)),
        decreases bytes.len() - i,
    {
        let b: u8 = bytes[i];
        out.push(hex_digit(b / 16));
        out.push(hex_digit(b % 16));
        i = i + 1;
        proof {
            assert(bytes@.take(i as int).drop_last() =~= bytes@.take(i - 1));
        }
    }
    proof {
        assert(bytes@.take(bytes@.len() as int) =~= bytes@);
    }
    out
}

/// The SHA-256 digest of `bytes` in hexadecimal.
pub fn sha256_hex(bytes: &[u8]) -> (r: String)
    ensures
        r@ == hex(sha256(bytes@)),
        r@.len() == 64,
        forall|i: int| 0 <= i < r@.len() ==> lower_hex_digit(#[trigger] r@[i]),
{
    let digest = sha256_digest(bytes);
    proof {
        hex_is_lower_case_digits(digest@);
    }
    hex_of(&digest)
}

/// `sha256:` and the digest of `bytes` in hexadecimal.
pub open spec fn content_digest(bytes: Seq<u8>) -> Seq<char> {
    "sha256:"@ + hex(sha256(bytes))
}

/// `sha256:` and the digest of `bytes` in hexadecimal.
pub fn content_digest_of(bytes: &[u8]) -> (r: String)
    ensures
        r@ == content_digest(bytes@),
{
    let mut out = "sha256:".to_owned();
    out.append(sha256_hex(bytes).as_str());
    out
}

/// The text of two runs of bytes, one after the other, is their texts, and one
/// byte is its upper half before its lower.
pub proof fn bytes_are_written_in_order(a: Seq<u8>, b: Seq<u8>, x: u8)
    ensures
        hex(a + b) == hex(a) + hex(b),
        hex(seq![x]) == seq![digit_char((x / 16) as nat), digit_char((x % 16) as nat)],
    decreases b.len(),
{
    if b.len() == 0 {
        assert(a + b =~= a);
        assert(hex(a) + hex(b) =~= hex(a));
    } else {
        bytes_are_written_in_order(a, b.drop_last(), x);
        assert((a + b).drop_last() =~= a + b.drop_last());
        assert((a + b).last() == b.last());
        assert(hex(a + b) =~= hex(a) + hex(b));
    }
    assert(seq![x].drop_last() =~= Seq::<u8>::empty());
    assert(hex(Seq::<u8>::empty()) =~= Seq::<char>::empty());
    assert(hex(seq![x]) =~= seq![digit_char((x / 16) as nat), digit_char((x % 16) as nat)]);
}

proof fn digits_are_distinct(x: u8, y: u8)
    requires
        digit_char((x / 16) as nat) == digit_char((y / 16) as nat),
        digit_char((x % 16) as nat) == digit_char((y % 16) as nat),
    ensures
        x == y,
{
    one_digit((x / 16) as nat, (y / 16) as nat);
    one_digit((x % 16) as nat, (y % 16) as nat);
}

proof fn one_digit(a: nat, b: nat)
    requires
        a < 16,
        b < 16,
        digit_char(a) == digit_char(b),
    ensures
        a == b,
{
    let x: char = digit_char(a);
    let y: char = digit_char(b);
    assert(x as u32 == if a < 10 {
        48 + a
    } else {
        87 + a
    });
    assert(y as u32 == if b < 10 {
        48 + b
    } else {
        87 + b
    });
}

/// Different bytes have different texts.
pub proof fn no_two_digests_are_written_alike(a: Seq<u8>, b: Seq<u8>)
    requires
        hex(a) == hex(b),
    ensures
        a == b,
    decreases a.len(),
{
    hex_is_lower_case_digits(a);
    hex_is_lower_case_digits(b);
    assert(a.len() == b.len());
    if a.len() > 0 {
        let s = hex(a);
        let n = s.len() as int;
        let x = hex(a.drop_last());
        let y = hex(b.drop_last());
        hex_is_lower_case_digits(a.drop_last());
        hex_is_lower_case_digits(b.drop_last());
        assert(hex(a)[n - 2] == digit_char((a.last() / 16) as nat));
        assert(hex(b)[n - 2] == digit_char((b.last() / 16) as nat));
        assert(hex(a)[n - 1] == digit_char((a.last() % 16) as nat));
        assert(hex(b)[n - 1] == digit_char((b.last() % 16) as nat));
        digits_are_distinct(a.last(), b.last());
        assert(s.take(n - 2) =~= x);
        assert(s.take(n - 2) =~= y);
        no_two_digests_are_written_alike(a.drop_last(), b.drop_last());
        assert(a =~= a.drop_last().push(a.last()));
        assert(b =~= b.drop_last().push(b.last()));
    } else {
        assert(a =~= b);
    }
}

} // verus!
