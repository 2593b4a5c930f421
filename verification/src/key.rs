//! Route keys and their hash.
//!
//! A route key is the decimal method id, a colon and the path, as in
//! `1:/users/:id`. Caches and the snapshot never keep the key itself: they
//! keep its 64-bit FNV-1a hash, taken over the key's bytes in order.

use crate::matcher::{key_bytes, COLON};
use crate::outside::format_decimal;
use vstd::prelude::*;
use vstd::string::StringExecFns;
use vstd::string::StringSliceAdditionalSpecFns;
use vstd::utf8::{encode_utf8, is_ascii_chars, is_ascii_chars_encode_utf8};

verus! {

/// The FNV-1a offset basis for 64 bits.
pub const FNV_OFFSET: u64 = 0xcbf29ce484222325;

/// The FNV-1a prime for 64 bits.
pub const FNV_PRIME: u64 = 0x100000001b3;

/// One step of FNV-1a: fold the byte in with exclusive-or, then multiply by
/// the prime modulo 2^64.
pub open spec fn fnv_step(hash: u64, byte: u8) -> u64 {
    (((hash ^ (byte as u64)) as nat * FNV_PRIME as nat) % 0x1_0000_0000_0000_0000) as u64
}

/// The FNV-1a hash of a run of bytes: the offset basis, with each byte
/// folded in from first to last.
pub open spec fn fnv1a(bytes: Seq<u8>) -> u64
    decreases bytes.len(),
{
    if bytes.len() == 0 {
        FNV_OFFSET
    } else {
        fnv_step(fnv1a(bytes.drop_last()), bytes.last())
    }
}

/// The hash under which a route key is cached: FNV-1a over its UTF-8 bytes.
pub open spec fn key_hash(key: Seq<char>) -> u64 {
    fnv1a(encode_utf8(key))
}

/// The character of a decimal digit.
pub open spec fn digit_char(digit: nat) -> char {
    seq!['0', '1', '2', '3', '4', '5', '6', '7', '8', '9'][digit as int]
}

/// The decimal digits of a number, most significant first, without padding.
pub open spec fn decimal(n: nat) -> Seq<char>
    decreases n,
{
    if n < 10 {
        seq![digit_char(n)]
    } else {
        decimal(n / 10).push(digit_char(n % 10))
    }
}

/// The route key of a method id and a path.
pub open spec fn route_key_spec(method_id: u8, path: Seq<char>) -> Seq<char> {
    decimal(method_id as nat) + seq![':'] + path
}

/// The UTF-8 bytes of two texts joined are the bytes of the one followed by
/// the bytes of the other.
pub proof fn lemma_encode_joined(head: Seq<char>, tail: Seq<char>)
    ensures
        encode_utf8(head + tail) == encode_utf8(head) + encode_utf8(tail),
    decreases head.len(),
{
    if head.len() == 0 {
        assert(head + tail =~= tail);
        assert(encode_utf8(head) + encode_utf8(tail) =~= encode_utf8(tail));
    } else {
        let joined = head + tail;
        assert(joined[0] == head[0]);
        assert(joined.drop_first() =~= head.drop_first() + tail);
        lemma_encode_joined(head.drop_first(), tail);
        assert(encode_utf8(joined) =~= encode_utf8(head) + encode_utf8(tail));
    }
}

/// The decimal digits of a number are digits: none of them is beyond ASCII,
/// and none of them is a colon.
pub proof fn lemma_decimal_digits(n: nat)
    ensures
        is_ascii_chars(decimal(n)),
        forall|i: int| 0 <= i < decimal(n).len() ==> '0' <= #[trigger] decimal(n)[i] <= '9',
    decreases n,
{
    if n >= 10 {
        lemma_decimal_digits(n / 10);
    }
}

/// The bytes of a route key are the bytes of the method id, a colon and the
/// bytes of the path; and the bytes of the method id hold no colon.
pub proof fn lemma_route_key_bytes(method_id: u8, path: Seq<char>)
    ensures
        encode_utf8(route_key_spec(method_id, path)) == key_bytes(
            encode_utf8(decimal(method_id as nat)),
            encode_utf8(path),
        ),
        forall|i: int|
            0 <= i < encode_utf8(decimal(method_id as nat)).len() ==> #[trigger] encode_utf8(
                decimal(method_id as nat),
            )[i] != COLON,
{
    let digits = decimal(method_id as nat);
    let colon = seq![':'];
    lemma_decimal_digits(method_id as nat);
    is_ascii_chars_encode_utf8(digits);
    is_ascii_chars_encode_utf8(colon);
    lemma_encode_joined(digits + colon, path);
    lemma_encode_joined(digits, colon);
    assert(encode_utf8(colon) =~= seq![COLON]);
    assert forall|i: int| 0 <= i < encode_utf8(digits).len() implies #[trigger] encode_utf8(
        digits,
    )[i] != COLON by {
        assert('0' <= digits[i] <= '9');
    }
}

/// The 64-bit FNV-1a hash of a route key's bytes.
pub fn fast_hash(key: &str) -> (hash: u64)
    ensures
        hash == fnv1a(key.spec_bytes()),
        hash == key_hash(key@),
{
    let bytes = key.as_bytes();
    let mut hash: u64 = FNV_OFFSET;
    let mut i: usize = 0;
    while i < bytes.len()
        invariant
            i <= bytes.len(),
            hash == fnv1a(bytes@.take(i as int)),
        decreases bytes.len() - i,
    {
        let byte = bytes[i];
        proof {
            let next = bytes@.take(i + 1);
            assert(next.drop_last() =~= bytes@.take(i as int));
            assert(next.last() == byte);
        }
        hash = (hash ^ (byte as u64)).wrapping_mul(FNV_PRIME);
        i = i + 1;
    }
    assert(bytes@.take(i as int) =~= bytes@);
    hash
}

/// The route key of a method id and a path: the decimal id, a colon, the
/// path.
pub fn route_key(method_id: u8, path: &str) -> (key: String)
    ensures
        key@ == route_key_spec(method_id, path@),
{
    let mut key = format_decimal(method_id as usize);
    proof {
        reveal_strlit(":");
    }
    key.append(":");
    key.append(path);
    assert(":"@ =~= seq![':']);
    key
}

} // verus!
