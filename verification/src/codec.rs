//! Canonical byte encoding and hashing primitives.
//!
//! `encode`-style helpers build a deterministic, order-stable byte form of
//! structured values: structs are concatenations of fields in declared order,
//! strings and byte strings are length-prefixed, numbers are decimal digits.
//! The same logical value always yields the same bytes, independent of
//! process, platform or any container iteration order.
//!
//! Hashing is SHA-256, exposed as lowercase hex.

use vstd::prelude::*;

verus! {

use vstd::utf8::encode_utf8;
use vstd::string::StringSliceAdditionalSpecFns;

/// SHA-256 as a pure function of the input bytes. The digest itself is left
/// uninterpreted: contracts downstream speak of it only by this name.
pub uninterp spec fn spec_sha256(data: Seq<u8>) -> Seq<u8>;

/// Relies on sha2::Sha256: the digest is 32 bytes and depends on the input
/// bytes alone.
#[verifier::external_body]
fn sha256_digest(data: &[u8]) -> (r: Vec<u8>)
    ensures
        r@ == spec_sha256(data@),
        r@.len() == 32,
{
    let mut h = <sha2::Sha256 as sha2::Digest>::new();
    sha2::Digest::update(&mut h, data);
    sha2::Digest::finalize(h).to_vec()
}

/// The lowercase hex digit for a nibble.
pub open spec fn hex_digit(n: u8) -> char
    recommends
        n < 16,
{
    if n < 10 {
        ((48 + n) as char)
    } else {
        ((87 + n) as char)
    }
}

/// Lowercase hex of a byte string: two digits per byte, high nibble first.
pub open spec fn spec_hex_chars(data: Seq<u8>) -> Seq<char>
    decreases data.len(),
{
    if data.len() == 0 {
        Seq::empty()
    } else {
        seq![hex_digit(data[0] / 16), hex_digit(data[0] % 16)] + spec_hex_chars(data.drop_first())
    }
}

pub proof fn lemma_hex_chars_len(data: Seq<u8>)
    ensures
        spec_hex_chars(data).len() == 2 * data.len(),
    decreases data.len(),
{
    if data.len() > 0 {
        lemma_hex_chars_len(data.drop_first());
    }
}

/// Relies on hex::encode: lowercase hex, two digits per byte, high nibble
/// first.
#[verifier::external_body]
fn hex_lower(data: &[u8]) -> (r: String)
    ensures
        r@ == spec_hex_chars(data@),
{
    hex::encode(data)
}

/// SHA-256 of a byte string, as lowercase hex characters.
pub open spec fn spec_hash_hex(data: Seq<u8>) -> Seq<char> {
    spec_hex_chars(spec_sha256(data))
}

/// SHA-256 of `data`, encoded as 64 lowercase hex characters.
pub fn hash_bytes(data: &[u8]) -> (r: String)
    ensures
        r@ == spec_hash_hex(data@),
        r@.len() == 64,
{
    let d = sha256_digest(data);
    let r = hex_lower(d.as_slice());
    proof {
        lemma_hex_chars_len(d@);
    }
    r
}

/// Decimal digits of `n`, as ASCII bytes, no sign, no leading zeros.
pub open spec fn spec_dec(n: nat) -> Seq<u8>
    decreases n,
    via spec_dec_decreases
{
    if n < 10 {
        seq![(48 + n) as u8]
    } else {
        spec_dec(n / 10).push((48 + n % 10) as u8)
    }
}

#[via_fn]
proof fn spec_dec_decreases(n: nat) {
    if n >= 10 {
        assert(n / 10 < n) by (nonlinear_arith)
            requires
                n >= 10,
        ;
    }
}

/// Appends the decimal digits of `n`.
pub fn push_dec(out: &mut Vec<u8>, n: u64)
    ensures
        final(out)@ == old(out)@ + spec_dec(n as nat),
    decreases n,
{
    if n < 10 {
        out.push((48 + n as u8));
    } else {
        proof {
            assert(n / 10 < n) by (nonlinear_arith)
                requires
                    n >= 10,
            ;
        }
        push_dec(out, n / 10);
        out.push((48 + (n % 10) as u8));
    }
}

/// Appends the bytes of `b`.
pub fn append_bytes(out: &mut Vec<u8>, b: &[u8])
    ensures
        final(out)@ == old(out)@ + b@,
{
    let mut i: usize = 0;
    while i < b.len()
        invariant
            i <= b@.len(),
            out@ == old(out)@ + b@.subrange(0, i as int),
        decreases b@.len() - i,
    {
        out.push(b[i]);
        i = i + 1;
        assert(b@.subrange(0, i as int) == b@.subrange(0, i - 1).push(b@[i - 1]));
    }
    assert(b@.subrange(0, b@.len() as int) == b@);
}

/// Canonical form of a `u64`: decimal digits closed by `;`.
pub open spec fn enc_u64(n: u64) -> Seq<u8> {
    spec_dec(n as nat) + seq![59u8]
}

pub fn push_u64(out: &mut Vec<u8>, n: u64)
    ensures
        final(out)@ == old(out)@ + enc_u64(n),
{
    push_dec(out, n);
    out.push(59u8);
}

/// Canonical form of a byte string: decimal length, `:`, then the bytes.
pub open spec fn enc_bytes(b: Seq<u8>) -> Seq<u8> {
    spec_dec(b.len()) + seq![58u8] + b
}

pub fn push_bytes(out: &mut Vec<u8>, b: &[u8])
    ensures
        final(out)@ == old(out)@ + enc_bytes(b@),
{
    push_dec(out, b.len() as u64);
    out.push(58u8);
    append_bytes(out, b);
}

/// Canonical form of a string: its UTF-8 bytes, length-prefixed.
pub open spec fn enc_str(s: Seq<char>) -> Seq<u8> {
    enc_bytes(encode_utf8(s))
}

pub fn push_str_field(out: &mut Vec<u8>, s: &str)
    ensures
        final(out)@ == old(out)@ + enc_str(s@),
{
    push_bytes(out, s.as_bytes());
}

/// Canonical form of a `bool`: one byte, `t` or `f`.
pub open spec fn enc_bool(b: bool) -> Seq<u8> {
    if b {
        seq![116u8]
    } else {
        seq![102u8]
    }
}

pub fn push_bool(out: &mut Vec<u8>, b: bool)
    ensures
        final(out)@ == old(out)@ + enc_bool(b),
{
    if b {
        out.push(116u8);
    } else {
        out.push(102u8);
    }
}

/// Canonical form of an optional string: `n`, or `s` followed by the string.
pub open spec fn enc_opt_str(s: Option<Seq<char>>) -> Seq<u8> {
    match s {
        Option::None => seq![110u8],
        Option::Some(cs) => seq![115u8] + enc_str(cs),
    }
}

pub fn push_opt_str(out: &mut Vec<u8>, s: &Option<String>)
    ensures
        final(out)@ == old(out)@ + enc_opt_str(match s {
            Option::None => Option::None,
            Option::Some(cs) => Option::Some(cs@),
        }),
{
    match s {
        None => {
            out.push(110u8);
        },
        Some(cs) => {
            out.push(115u8);
            push_str_field(out, cs.as_str());
        },
    }
}

/// The seed of every hash chain in this crate.
pub open spec fn spec_genesis() -> Seq<char> {
    "GENESIS"@
}

pub fn genesis() -> (s: String)
    ensures
        s@ == spec_genesis(),
{
    "GENESIS".to_owned()
}

/// String equality, specified over the views.
pub fn string_eq(a: &String, b: &String) -> (r: bool)
    ensures
        r == (a@ == b@),
{
    a.eq(b)
}

/// Relies on String::push: appends one character.
#[verifier::external_body]
pub fn push_char(s: &mut String, c: char)
    ensures
        final(s)@ == old(s)@.push(c),
{
    s.push(c);
}

/// Relies on String::push_str: appends the characters of `t`.
#[verifier::external_body]
pub fn append_str(s: &mut String, t: &str)
    ensures
        final(s)@ == old(s)@ + t@,
{
    s.push_str(t);
}

/// Decimal digits of `n`, as characters.
pub open spec fn spec_dec_chars(n: nat) -> Seq<char>
    decreases n,
    via spec_dec_chars_decreases
{
    if n < 10 {
        seq![(48 + n) as char]
    } else {
        spec_dec_chars(n / 10).push((48 + n % 10) as char)
    }
}

#[via_fn]
proof fn spec_dec_chars_decreases(n: nat) {
    if n >= 10 {
        assert(n / 10 < n) by (nonlinear_arith)
            requires
                n >= 10,
        ;
    }
}

/// Appends the decimal digits of `n` to a string.
pub fn push_dec_chars(s: &mut String, n: u64)
    ensures
        final(s)@ == old(s)@ + spec_dec_chars(n as nat),
    decreases n,
{
    if n < 10 {
        push_char(s, (48 + n as u8) as char);
    } else {
        proof {
            assert(n / 10 < n) by (nonlinear_arith)
                requires
                    n >= 10,
            ;
        }
        push_dec_chars(s, n / 10);
        push_char(s, (48 + (n % 10) as u8) as char);
    }
}

/// An ASCII decimal digit.
pub open spec fn is_digit(b: u8) -> bool {
    48 <= b <= 57
}

pub proof fn lemma_dec_all_digits(n: nat)
    ensures
        forall|i: int| 0 <= i < spec_dec(n).len() ==> is_digit(#[trigger] spec_dec(n)[i]),
        spec_dec(n).len() >= 1,
    decreases n,
{
    if n >= 10 {
        assert(n / 10 < n) by (nonlinear_arith)
            requires
                n >= 10,
        ;
        lemma_dec_all_digits(n / 10);
    }
}

pub proof fn lemma_dec_injective(m: nat, n: nat)
    requires
        spec_dec(m) == spec_dec(n),
    ensures
        m == n,
    decreases m,
{
    lemma_dec_all_digits(m);
    lemma_dec_all_digits(n);
    if m < 10 && n < 10 {
        assert(spec_dec(m) == seq![(48 + m) as u8]);
        assert(spec_dec(n) == seq![(48 + n) as u8]);
        assert(seq![(48 + m) as u8][0] == (48 + m) as u8);
        assert(seq![(48 + n) as u8][0] == (48 + n) as u8);
        assert(spec_dec(m)[0] == spec_dec(n)[0]);
        assert((48 + m) as u8 == (48 + n) as u8);
    } else if m < 10 {
        assert(n / 10 < n) by (nonlinear_arith)
            requires
                n >= 10,
        ;
        lemma_dec_all_digits(n / 10);
        assert(spec_dec(n) == spec_dec(n / 10).push((48 + n % 10) as u8));
        assert(spec_dec(n).len() >= 2);
        assert(spec_dec(m) == seq![(48 + m) as u8]);
        assert(spec_dec(m).len() == 1);
    } else if n < 10 {
        assert(m / 10 < m) by (nonlinear_arith)
            requires
                m >= 10,
        ;
        lemma_dec_all_digits(m / 10);
        assert(spec_dec(m) == spec_dec(m / 10).push((48 + m % 10) as u8));
        assert(spec_dec(m).len() >= 2);
        assert(spec_dec(n) == seq![(48 + n) as u8]);
        assert(spec_dec(n).len() == 1);
    } else {
        assert(m / 10 < m) by (nonlinear_arith)
            requires
                m >= 10,
        ;
        assert(spec_dec(m) == spec_dec(m / 10).push((48 + m % 10) as u8));
        assert(spec_dec(n) == spec_dec(n / 10).push((48 + n % 10) as u8));
        assert(m % 10 < 10 && n % 10 < 10);
        assert(spec_dec(m).last() == (48 + m % 10) as u8);
        assert(spec_dec(n).last() == (48 + n % 10) as u8);
        assert(m % 10 == n % 10);
        assert(spec_dec(m).drop_last() =~= spec_dec(m / 10));
        assert(spec_dec(n).drop_last() =~= spec_dec(n / 10));
        lemma_dec_injective(m / 10, n / 10);
        assert(m == 10 * (m / 10) + m % 10) by (nonlinear_arith);
        assert(n == 10 * (n / 10) + n % 10) by (nonlinear_arith);
    }
}

/// Two digit runs closed by the same non-digit byte frame identically: the
/// runs and the tails coincide.
pub proof fn lemma_digit_framing(d1: Seq<u8>, d2: Seq<u8>, sep: u8, t1: Seq<u8>, t2: Seq<u8>)
    requires
        forall|i: int| 0 <= i < d1.len() ==> is_digit(#[trigger] d1[i]),
        forall|i: int| 0 <= i < d2.len() ==> is_digit(#[trigger] d2[i]),
        !is_digit(sep),
        d1 + seq![sep] + t1 == d2 + seq![sep] + t2,
    ensures
        d1 == d2,
        t1 == t2,
{
    let s = d1 + seq![sep] + t1;
    if d1.len() < d2.len() {
        assert(s[d1.len() as int] == sep);
        assert((d2 + seq![sep] + t2)[d1.len() as int] == d2[d1.len() as int]);
        assert(is_digit(d2[d1.len() as int]));
    }
    if d2.len() < d1.len() {
        assert(s[d2.len() as int] == d1[d2.len() as int]);
        assert((d2 + seq![sep] + t2)[d2.len() as int] == sep);
        assert(is_digit(d1[d2.len() as int]));
    }
    assert(d1.len() == d2.len());
    assert forall|i: int| 0 <= i < d1.len() implies d1[i] == d2[i] by {
        assert(s[i] == d1[i]);
        assert((d2 + seq![sep] + t2)[i] == d2[i]);
    }
    assert(d1 =~= d2);
    assert(s.len() == d1.len() + 1 + t1.len());
    assert((d2 + seq![sep] + t2).len() == d2.len() + 1 + t2.len());
    assert(t1.len() == t2.len());
    assert forall|i: int| 0 <= i < t1.len() implies t1[i] == t2[i] by {
        assert(s[d1.len() + 1 + i] == t1[i]);
        assert((d2 + seq![sep] + t2)[d2.len() + 1 + i] == t2[i]);
    }
    assert(t1 =~= t2);
}

/// Length-prefixed byte strings frame: equal encodings followed by equal
/// tails force equal contents and equal tails.
pub proof fn lemma_enc_bytes_framing(a: Seq<u8>, b: Seq<u8>, r: Seq<u8>, s: Seq<u8>)
    requires
        enc_bytes(a) + r == enc_bytes(b) + s,
    ensures
        a == b,
        r == s,
{
    lemma_dec_all_digits(a.len());
    lemma_dec_all_digits(b.len());
    assert(spec_dec(a.len()) + seq![58u8] + (a + r) =~= enc_bytes(a) + r);
    assert(spec_dec(b.len()) + seq![58u8] + (b + s) =~= enc_bytes(b) + s);
    lemma_digit_framing(spec_dec(a.len()), spec_dec(b.len()), 58u8, a + r, b + s);
    lemma_dec_injective(a.len(), b.len());
    assert forall|i: int| 0 <= i < a.len() implies a[i] == b[i] by {
        assert((a + r)[i] == a[i]);
        assert((b + s)[i] == b[i]);
    }
    assert(a =~= b);
    assert forall|i: int| 0 <= i < r.len() implies r[i] == s[i] by {
        assert((a + r)[a.len() + i] == r[i]);
        assert((b + s)[a.len() + i] == s[i]);
    }
    assert(r.len() == s.len());
    assert(r =~= s);
}

/// Strings frame: equal canonical string fields force equal characters.
pub proof fn lemma_enc_str_framing(a: Seq<char>, b: Seq<char>, r: Seq<u8>, s: Seq<u8>)
    requires
        enc_str(a) + r == enc_str(b) + s,
    ensures
        a == b,
        r == s,
{
    lemma_enc_bytes_framing(encode_utf8(a), encode_utf8(b), r, s);
    vstd::utf8::encode_utf8_decode_utf8(a);
    vstd::utf8::encode_utf8_decode_utf8(b);
}

/// Numbers frame: equal canonical `u64` fields force equal values.
pub proof fn lemma_enc_u64_framing(m: u64, n: u64, r: Seq<u8>, s: Seq<u8>)
    requires
        enc_u64(m) + r == enc_u64(n) + s,
    ensures
        m == n,
        r == s,
{
    lemma_dec_all_digits(m as nat);
    lemma_dec_all_digits(n as nat);
    assert(spec_dec(m as nat) + seq![59u8] + r =~= enc_u64(m) + r);
    assert(spec_dec(n as nat) + seq![59u8] + s =~= enc_u64(n) + s);
    lemma_digit_framing(spec_dec(m as nat), spec_dec(n as nat), 59u8, r, s);
    lemma_dec_injective(m as nat, n as nat);
}

/// Booleans frame: the tag bytes differ, so equal encodings force equal
/// values and tails.
pub proof fn lemma_enc_bool_framing(a: bool, b: bool, r: Seq<u8>, s: Seq<u8>)
    requires
        enc_bool(a) + r == enc_bool(b) + s,
    ensures
        a == b,
        r == s,
{
    if a {
        assert(enc_bool(a) == seq![116u8]);
        assert(enc_bool(a).len() == 1 && enc_bool(a)[0] == 116u8);
    } else {
        assert(enc_bool(a) == seq![102u8]);
        assert(enc_bool(a).len() == 1 && enc_bool(a)[0] == 102u8);
    }
    if b {
        assert(enc_bool(b) == seq![116u8]);
        assert(enc_bool(b).len() == 1 && enc_bool(b)[0] == 116u8);
    } else {
        assert(enc_bool(b) == seq![102u8]);
        assert(enc_bool(b).len() == 1 && enc_bool(b)[0] == 102u8);
    }
    assert((enc_bool(a) + r)[0] == enc_bool(a)[0]);
    assert((enc_bool(b) + s)[0] == enc_bool(b)[0]);
    assert((enc_bool(a) + r).len() == enc_bool(a).len() + r.len());
    assert((enc_bool(b) + s).len() == enc_bool(b).len() + s.len());
    assert(r.len() == s.len());
    assert forall|i: int| 0 <= i < r.len() implies r[i] == s[i] by {
        assert((enc_bool(a) + r)[1 + i] == r[i]);
        assert((enc_bool(b) + s)[1 + i] == s[i]);
    }
    assert(r =~= s);
}

/// Optional strings frame: the tag byte separates the cases, and the string
/// case frames through the string encoding.
pub proof fn lemma_enc_opt_str_framing(
    a: Option<Seq<char>>,
    b: Option<Seq<char>>,
    r: Seq<u8>,
    s: Seq<u8>,
)
    requires
        enc_opt_str(a) + r == enc_opt_str(b) + s,
    ensures
        a == b,
        r == s,
{
    assert((enc_opt_str(a) + r)[0] == enc_opt_str(a)[0]);
    assert((enc_opt_str(b) + s)[0] == enc_opt_str(b)[0]);
    match (a, b) {
        (Option::None, Option::None) => {
            assert(enc_opt_str(a).len() == 1 && enc_opt_str(b).len() == 1);
            assert(r.len() == s.len());
            assert forall|i: int| 0 <= i < r.len() implies r[i] == s[i] by {
                assert((enc_opt_str(a) + r)[1 + i] == r[i]);
                assert((enc_opt_str(b) + s)[1 + i] == s[i]);
            }
            assert(r =~= s);
        },
        (Option::Some(x), Option::Some(y)) => {
            assert(enc_str(x) + r =~= (enc_opt_str(a) + r).skip(1));
            assert(enc_str(y) + s =~= (enc_opt_str(b) + s).skip(1));
            lemma_enc_str_framing(x, y, r, s);
        },
        _ => {},
    }
}

} // verus!
