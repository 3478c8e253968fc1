//! Text building blocks: decimal numerals and the rounding a binary64
//! float applies to an integer, for byte-count labels.

use vstd::prelude::*;
use vstd::arithmetic::power2::{pow2, lemma_pow2_unfold, lemma_pow2_pos};

verus! {

broadcast use vstd::string::group_string_axioms;

/// The character of the decimal digit `d`.
pub open spec fn digit_char(d: nat) -> char {
    if d == 0 {
        '0'
    } else if d == 1 {
        '1'
    } else if d == 2 {
        '2'
    } else if d == 3 {
        '3'
    } else if d == 4 {
        '4'
    } else if d == 5 {
        '5'
    } else if d == 6 {
        '6'
    } else if d == 7 {
        '7'
    } else if d == 8 {
        '8'
    } else {
        '9'
    }
}

/// The decimal numeral of `n`, without leading zeros.
pub open spec fn decimal(n: nat) -> Seq<char>
    decreases n,
{
    if n < 10 {
        seq![digit_char(n)]
    } else {
        decimal(n / 10) + seq![digit_char(n % 10)]
    }
}

/// The one-character string of the digit `d`.
fn digit_str(d: u8) -> (r: &'static str)
    requires
        d < 10,
    ensures
        r@ == seq![digit_char(d as nat)],
{
    proof {
        reveal_strlit("0");
        reveal_strlit("1");
        reveal_strlit("2");
        reveal_strlit("3");
        reveal_strlit("4");
        reveal_strlit("5");
        reveal_strlit("6");
        reveal_strlit("7");
        reveal_strlit("8");
        reveal_strlit("9");
    }
    match d {
        0 => "0",
        1 => "1",
        2 => "2",
        3 => "3",
        4 => "4",
        5 => "5",
        6 => "6",
        7 => "7",
        8 => "8",
        _ => "9",
    }
}

/// Appends the decimal numeral of `n` to `s`.
pub fn append_decimal(s: &mut String, n: u128)
    ensures
        final(s)@ == old(s)@ + decimal(n as nat),
    decreases n,
{
    if n >= 10 {
        append_decimal(s, n / 10);
    }
    s.append(digit_str((n % 10) as u8));
    assert(old(s)@ + decimal(n as nat) =~= if n >= 10 {
        old(s)@ + decimal((n / 10) as nat) + seq![digit_char((n % 10) as nat)]
    } else {
        old(s)@ + seq![digit_char((n % 10) as nat)]
    });
}

/// The number of binary digits of `n` (zero for zero).
pub open spec fn bit_length(n: nat) -> nat
    decreases n,
{
    if n == 0 {
        0
    } else {
        1 + bit_length(n / 2)
    }
}

/// `n / d` rounded to the nearest integer, ties to the even one.
pub open spec fn div_round_half_even(n: nat, d: nat) -> nat
    recommends
        d > 0,
{
    let q = n / d;
    let r = n % d;
    if 2 * r > d || (2 * r == d && q % 2 == 1) {
        q + 1
    } else {
        q
    }
}

/// The value a binary64 float takes for the integer `n`: `n` rounded to
/// 53 significant bits, ties to even.
pub open spec fn binary64_round(n: nat) -> nat {
    if bit_length(n) <= 53 {
        n
    } else {
        let p = pow2((bit_length(n) - 53) as nat);
        div_round_half_even(n, p) * p
    }
}

proof fn lemma_bit_length_bound(n: nat, k: nat)
    requires
        n < pow2(k),
    ensures
        bit_length(n) <= k,
    decreases n,
{
    if n > 0 {
        if k == 0 {
            assert(pow2(0) == 1) by {
                vstd::arithmetic::power2::lemma2_to64();
            }
        } else {
            lemma_pow2_unfold(k);
            lemma_bit_length_bound(n / 2, (k - 1) as nat);
        }
    }
}

/// `2^e` for `e <= 64`.
fn pow2_u128(e: u32) -> (r: u128)
    requires
        e <= 64,
    ensures
        r == pow2(e as nat),
{
    let mut r: u128 = 1;
    let mut i: u32 = 0;
    proof {
        vstd::arithmetic::power2::lemma2_to64();
    }
    while i < e
        invariant
            i <= e <= 64,
            r == pow2(i as nat),
            r <= 0x1_0000_0000_0000_0000,
        decreases e - i,
    {
        proof {
            lemma_pow2_unfold((i + 1) as nat);
            if i + 1 < 64 {
                vstd::arithmetic::power2::lemma_pow2_strictly_increases((i + 1) as nat, 64);
            }
            vstd::arithmetic::power2::lemma2_to64();
        }
        r = r * 2;
        i = i + 1;
    }
    r
}

/// The number of binary digits of `n`.
fn bit_length_u64(n: u64) -> (r: u32)
    ensures
        r == bit_length(n as nat),
        r <= 64,
{
    let mut x: u64 = n;
    let mut len: u32 = 0;
    proof {
        vstd::arithmetic::power2::lemma2_to64();
        lemma_bit_length_bound(n as nat, 64);
    }
    while x > 0
        invariant
            bit_length(n as nat) == len + bit_length(x as nat),
            bit_length(n as nat) <= 64,
        decreases x,
    {
        x = x / 2;
        len = len + 1;
    }
    len
}

/// `n / d` rounded to the nearest integer, ties to the even one.
fn div_round_half_even_u128(n: u128, d: u128) -> (r: u128)
    requires
        d > 0,
    ensures
        r == div_round_half_even(n as nat, d as nat),
{
    let q = n / d;
    let rem = n % d;
    let up = d - rem;
    if rem > up || (rem == up && q % 2 == 1) {
        assert(q < u128::MAX) by (nonlinear_arith)
            requires
                q == n / d,
                rem == n % d,
                rem > 0,
                d > 0,
        {
            assert(d >= 2);
            assert(q * d + rem == n);
            assert(q * 2 <= q * d);
        }
        q + 1
    } else {
        q
    }
}

/// The binary64 value of `n` (see `binary64_round`); at most `n + 2^11`.
pub fn binary64_of(n: u64) -> (r: u128)
    ensures
        r == binary64_round(n as nat),
        r <= n + 2048,
{
    let len = bit_length_u64(n);
    if len <= 53 {
        n as u128
    } else {
        let p = pow2_u128(len - 53);
        proof {
            vstd::arithmetic::power2::lemma2_to64();
            if len - 53 < 11 {
                vstd::arithmetic::power2::lemma_pow2_strictly_increases((len - 53) as nat, 11);
            }
        }
        assert(p <= 2048);
        let q = div_round_half_even_u128(n as u128, p);
        assert(q * p <= n + p) by (nonlinear_arith)
            requires
                p > 0,
                q == div_round_half_even(n as nat, p as nat),
        {
            let q0 = (n as nat) / (p as nat);
            assert(q0 * p <= n);
            assert(q <= q0 + 1);
            assert(q * p <= (q0 + 1) * p);
        }
        q * p
    }
}

/// `q` hundredths written with two decimals: `decimal(q / 100)`, a point,
/// then the tenths and hundredths digits.
pub open spec fn fixed2(q: nat) -> Seq<char> {
    decimal(q / 100) + seq!['.', digit_char((q / 10) % 10), digit_char(q % 10)]
}

/// `q` tenths written with one decimal.
pub open spec fn fixed1(q: nat) -> Seq<char> {
    decimal(q / 10) + seq!['.', digit_char(q % 10)]
}

/// Appends `fixed2(q)` to `s`.
pub fn append_fixed2(s: &mut String, q: u128)
    ensures
        final(s)@ == old(s)@ + fixed2(q as nat),
{
    append_decimal(s, q / 100);
    proof {
        reveal_strlit(".");
    }
    s.append(".");
    s.append(digit_str(((q / 10) % 10) as u8));
    s.append(digit_str((q % 10) as u8));
    assert(final(s)@ =~= old(s)@ + fixed2(q as nat));
}

/// Appends `fixed1(q)` to `s`.
pub fn append_fixed1(s: &mut String, q: u128)
    ensures
        final(s)@ == old(s)@ + fixed1(q as nat),
{
    append_decimal(s, q / 10);
    proof {
        reveal_strlit(".");
    }
    s.append(".");
    s.append(digit_str((q % 10) as u8));
    assert(final(s)@ =~= old(s)@ + fixed1(q as nat));
}

/// `n / 2^shift` rounded half to even, for `n < 2^72`.
pub fn scaled_round(n: u128, shift: u32) -> (r: u128)
    requires
        shift <= 64,
    ensures
        r == div_round_half_even(n as nat, pow2(shift as nat)),
{
    let p = pow2_u128(shift);
    proof {
        vstd::arithmetic::power2::lemma_pow2_pos(shift as nat);
    }
    div_round_half_even_u128(n, p)
}

/// What `str::to_lowercase` returns for a string (Unicode lowercase
/// mapping, which may change the length of non-ASCII text).
pub uninterp spec fn lowercase_of(s: Seq<char>) -> Seq<char>;

/// Every character is ASCII.
pub open spec fn is_ascii_text(s: Seq<char>) -> bool {
    forall|i: int| 0 <= i < s.len() ==> #[trigger] (s[i] as u32) < 128
}

/// ASCII lowercase of one character: `A`..=`Z` become `a`..=`z`.
pub open spec fn ascii_lower(c: char) -> char {
    if 65 <= (c as u32) <= 90 {
        ((c as u32) + 32) as char
    } else {
        c
    }
}

/// `str::to_lowercase`.
///
/// The result is named by `lowercase_of`; beyond that the contract states
/// only the ASCII case, where the Unicode mapping lowers `A`..=`Z` and keeps
/// every other character.
#[verifier::external_body]
pub fn to_lowercase(s: &str) -> (r: String)
    ensures
        r@ == lowercase_of(s@),
        is_ascii_text(s@) ==> r@ == s@.map_values(|c: char| ascii_lower(c)),
{
    s.to_lowercase()
}

/// A `String` holding `s`.
pub fn owned(s: &str) -> (r: String)
    ensures
        r@ == s@,
{
    s.to_string()
}

/// Whether `a` reads `b`.
pub fn equals_str(a: &String, b: &str) -> (r: bool)
    ensures
        r == (a@ == b@),
{
    let t = owned(b);
    *a == t
}

} // verus!
