//! 256-bit unsigned integers and their two numerals: decimal, and minimal
//! lower-case hex.
use vstd::prelude::*;
use vstd::string::*;
use crate::error::CodecError;
use crate::hex::{has_prefix, hex_char, prefixed, after_prefix};

verus! {

/// One more than the largest value a `Uint256` holds.
pub open spec fn u256_bound() -> nat {
    limb_base() * limb_base() * limb_base() * limb_base()
}

/// 2^64.
pub open spec fn limb_base() -> nat {
    0x1_0000_0000_0000_0000
}

/// The value of four 64-bit limbs, least significant first.
pub open spec fn limbs_value(l: [u64; 4]) -> nat {
    l[0] as nat + limb_base() * (l[1] as nat + limb_base() * (l[2] as nat + limb_base() * (
    l[3] as nat)))
}

/// An unsigned integer below 2^256, held as four 64-bit limbs, least
/// significant first.
#[derive(Clone, Copy, Debug, PartialEq, Eq)]
pub struct Uint256 {
    pub limbs: [u64; 4],
}

impl View for Uint256 {
    type V = nat;

    open spec fn view(&self) -> nat {
        limbs_value(self.limbs)
    }
}

pub open spec fn uint_result(r: Result<Uint256, CodecError>) -> Result<nat, CodecError> {
    match r {
        Ok(v) => Ok(v@),
        Err(e) => Err(e),
    }
}

/// The value of a digit character in the given radix (up to 36), in either case.
pub open spec fn radix_digit(c: char, radix: nat) -> Option<nat> {
    let d: int = if '0' <= c <= '9' {
        c as u32 - 48
    } else if 'a' <= c <= 'z' {
        c as u32 - 87
    } else if 'A' <= c <= 'Z' {
        c as u32 - 55
    } else {
        -1
    };
    if 0 <= d < radix {
        Some(d as nat)
    } else {
        None
    }
}

/// The value of a numeral, most significant digit first; underscores are
/// skipped and the empty numeral is zero.
pub open spec fn numeral_value(s: Seq<char>, radix: nat) -> Option<nat>
    decreases s.len(),
{
    if s.len() == 0 {
        Some(0)
    } else {
        match numeral_value(s.drop_last(), radix) {
            None => None,
            Some(v) => if s.last() == '_' {
                Some(v)
            } else {
                match radix_digit(s.last(), radix) {
                    Some(d) => Some(v * radix + d),
                    None => None,
                }
            },
        }
    }
}

/// A non-empty numeral made of digits of the radix alone: no underscore,
/// sign, marker or space.
pub open spec fn all_digits(s: Seq<char>, radix: nat) -> bool {
    s.len() > 0 && forall|i: int| 0 <= i < s.len() ==> radix_digit(#[trigger] s[i], radix) is Some
}

/// Whether `s` is a non-empty run of decimal digits, or of hex digits (in
/// either case) when `hex` holds.
pub fn only_digits(s: &str, hex: bool) -> (r: bool)
    ensures
        r == all_digits(s@, if hex { 16 } else { 10 }),
{
    let ghost radix: nat = if hex { 16 } else { 10 };
    let n = s.unicode_len();
    if n == 0 {
        return false;
    }
    let mut i: usize = 0;
    while i < n
        invariant
            n == s@.len(),
            0 <= i <= n,
            radix == (if hex { 16nat } else { 10nat }),
            forall|j: int| 0 <= j < i ==> radix_digit(#[trigger] s@[j], radix) is Some,
        decreases n - i,
    {
        let c = s.get_char(i);
        let ok = ('0' <= c && c <= '9') || (hex && (('a' <= c && c <= 'f') || ('A' <= c && c <= 'F')));
        if !ok {
            assert(radix_digit(s@[i as int], radix) is None);
            return false;
        }
        i += 1;
    }
    true
}

/// A numeral read as a 256-bit value: `None` if it holds a bad digit or does not fit.
pub open spec fn parse_u256(s: Seq<char>, radix: nat) -> Option<nat> {
    match numeral_value(s, radix) {
        Some(v) => if v < u256_bound() {
            Some(v)
        } else {
            None
        },
        None => None,
    }
}

/// The shortest numeral of `n` in radix 10 or 16, in lower case; zero is `0`.
pub open spec fn minimal_digits(n: nat, radix: nat) -> Seq<char>
    decreases n,
{
    if radix != 10 && radix != 16 {
        Seq::empty()
    } else if n < radix {
        seq![hex_char(n)]
    } else {
        let (q, d) = if radix == 10 {
            (n / 10, n % 10)
        } else {
            (n / 16, n % 16)
        };
        minimal_digits(q, radix).push(hex_char(d))
    }
}

/// Relies on the `Display` of alloy_primitives::U256 (ruint): the shortest
/// decimal numeral.
#[verifier::external_body]
pub(crate) fn format_decimal(limbs: [u64; 4]) -> (r: String)
    ensures
        r@ == minimal_digits(limbs_value(limbs), 10),
{
    alloy_primitives::U256::from_limbs(limbs).to_string()
}

/// Relies on the `LowerHex` of alloy_primitives::U256 (ruint) with `#`: `0x`
/// and the shortest lower-case hex numeral.
#[verifier::external_body]
pub(crate) fn format_hex(limbs: [u64; 4]) -> (r: String)
    ensures
        r@ == prefixed(minimal_digits(limbs_value(limbs), 16)),
{
    format!("{:#x}", alloy_primitives::U256::from_limbs(limbs))
}

/// Relies on alloy_primitives::U256::from_str_radix (ruint) with radix 10.
#[verifier::external_body]
pub(crate) fn parse_decimal(s: &str) -> (r: Option<[u64; 4]>)
    ensures
        match parse_u256(s@, 10) {
            Some(v) => r is Some && limbs_value(r->Some_0) == v,
            None => r is None,
        },
{
    match alloy_primitives::U256::from_str_radix(s, 10) {
        Ok(v) => Some(v.into_limbs()),
        Err(_) => None,
    }
}

/// Relies on the `FromStr` of alloy_primitives::U256 (ruint): after a `0x`
/// marker the rest is read in radix 16.
#[verifier::external_body]
pub(crate) fn parse_prefixed_hex(s: &str) -> (r: Option<[u64; 4]>)
    requires
        has_prefix(s@),
    ensures
        match parse_u256(after_prefix(s@), 16) {
            Some(v) => r is Some && limbs_value(r->Some_0) == v,
            None => r is None,
        },
{
    match <alloy_primitives::U256 as std::str::FromStr>::from_str(s) {
        Ok(v) => Some(v.into_limbs()),
        Err(_) => None,
    }
}

pub proof fn lemma_limbs_bound(l: [u64; 4])
    ensures
        limbs_value(l) < u256_bound(),
{
    let b = limb_base();
    let x3 = l[3] as nat;
    let x2 = l[2] as nat + b * x3;
    let x1 = l[1] as nat + b * x2;
    assert(x2 < b * b) by (nonlinear_arith)
        requires x3 < b, l[2] < b, x2 == l[2] as nat + b * x3;
    assert(x1 < b * b * b) by (nonlinear_arith)
        requires x2 < b * b, l[1] < b, x1 == l[1] as nat + b * x2;
    assert(l[0] as nat + b * x1 < b * b * b * b) by (nonlinear_arith)
        requires x1 < b * b * b, l[0] < b;
}

proof fn lemma_radix_digit_of_char(d: nat, radix: nat)
    requires
        d < radix <= 16,
    ensures
        radix_digit(hex_char(d), radix) == Some(d),
{
}

/// Reading the shortest numeral of `n` gives back `n`.
pub proof fn lemma_minimal_digits_value(n: nat, radix: nat)
    requires
        radix == 10 || radix == 16,
    ensures
        numeral_value(minimal_digits(n, radix), radix) == Some(n),
    decreases n,
{
    if n < radix {
        let s = minimal_digits(n, radix);
        assert(s.drop_last() =~= Seq::<char>::empty());
        assert(numeral_value(s.drop_last(), radix) == Some(0nat));
        lemma_radix_digit_of_char(n, radix);
        assert(s.last() == hex_char(n));
        assert(hex_char(n) != '_');
    } else {
        let q = n / radix;
        let d = n % radix;
        let m = minimal_digits(q, radix);
        lemma_minimal_digits_value(q, radix);
        let s = minimal_digits(n, radix);
        assert(s == m.push(hex_char(d)));
        assert(s.drop_last() =~= m);
        assert(s.last() == hex_char(d));
        lemma_radix_digit_of_char(d, radix);
        assert(hex_char(d) != '_');
        assert(n == q * radix + d) by (nonlinear_arith)
            requires radix > 0, q == n / radix, d == n % radix;
    }
}

/// The shortest numeral is made of digits of the radix alone.
pub proof fn lemma_minimal_digits_all_digits(n: nat, radix: nat)
    requires
        radix == 10 || radix == 16,
    ensures
        all_digits(minimal_digits(n, radix), radix),
    decreases n,
{
    if n < radix {
        lemma_radix_digit_of_char(n, radix);
    } else {
        let q = n / radix;
        let d = n % radix;
        lemma_minimal_digits_all_digits(q, radix);
        lemma_radix_digit_of_char(d, radix);
        let m = minimal_digits(q, radix);
        let s = minimal_digits(n, radix);
        assert(s == m.push(hex_char(d)));
        assert forall|i: int| 0 <= i < s.len() implies radix_digit(#[trigger] s[i], radix) is Some by {
            if i < m.len() {
                assert(s[i] == m[i]);
            }
        }
    }
}

/// The shortest numeral has at least one digit, is `0` for zero, and does not
/// start with `0` for any other value.
pub proof fn lemma_minimal_digits_canonical(n: nat, radix: nat)
    requires
        radix == 10 || radix == 16,
    ensures
        minimal_digits(n, radix).len() >= 1,
        n == 0 ==> minimal_digits(n, radix) == seq!['0'],
        n > 0 ==> minimal_digits(n, radix)[0] != '0',
    decreases n,
{
    if n < radix {
        if n == 0 {
            assert(minimal_digits(n, radix) =~= seq!['0']);
        }
    } else {
        assert(n / radix > 0) by (nonlinear_arith)
            requires n >= radix, radix > 0;
        assert(n / radix < n) by (nonlinear_arith)
            requires n >= radix, radix > 1;
        lemma_minimal_digits_canonical(n / radix, radix);
    }
}

} // verus!
