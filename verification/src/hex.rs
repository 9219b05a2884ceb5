//! Hexadecimal rendering of machine words, used by the trap vector to report
//! the cause and trapped program counter.
//!
//! A value renders as `0x` followed by its lowercase hex digits with no
//! leading zeros; zero renders as `0x0`.

use vstd::prelude::*;

verus! {

/// The byte of the lowercase hex digit for a value below sixteen.
pub open spec fn hex_digit(d: nat) -> u8 {
    if d < 10 {
        (0x30 + d) as u8
    } else {
        (0x57 + d) as u8
    }
}

/// The hex digits of a value, most significant first, with no leading zeros;
/// zero is the single digit `0`.
pub open spec fn hex_digits(n: nat) -> Seq<u8>
    decreases n,
{
    if n < 16 {
        seq![hex_digit(n)]
    } else {
        hex_digits(n / 16).push(hex_digit(n % 16))
    }
}

/// The full rendering: `0x` followed by the digits.
pub open spec fn hex_repr(n: nat) -> Seq<u8> {
    seq![0x30u8, 0x78u8] + hex_digits(n)
}

/// Sixteen to the given power; the count of values a digit string of that
/// length can denote.
pub open spec fn pow16(k: nat) -> nat
    decreases k,
{
    if k == 0 {
        1
    } else {
        16 * pow16((k - 1) as nat)
    }
}

/// A value below `pow16(k)` renders in at most `k` digits, and never in none.
pub proof fn lemma_hex_digits_len(n: nat, k: nat)
    requires
        1 <= k,
        n < pow16(k),
    ensures
        1 <= hex_digits(n).len() <= k,
    decreases n,
{
    if n < 16 {
    } else {
        assert(k >= 2) by {
            if k == 1 {
                assert(pow16(1nat) == 16 * pow16(0nat));
            }
        }
        assert(pow16(k) == 16 * pow16((k - 1) as nat));
        assert(n / 16 < pow16((k - 1) as nat)) by (nonlinear_arith)
            requires
                n < 16 * pow16((k - 1) as nat),
                n >= 16,
        ;
        lemma_hex_digits_len(n / 16, (k - 1) as nat);
    }
}

/// Any machine word renders in at most sixteen digits.
pub proof fn lemma_hex_digits_len_word(n: usize)
    ensures
        1 <= hex_digits(n as nat).len() <= 16,
{
    reveal_with_fuel(pow16, 17);
    assert(pow16(16nat) == 0x10000000000000000);
    lemma_hex_digits_len(n as nat, 16nat);
}

/// The executable hex digit for a value below sixteen.
fn hex_digit_byte(d: usize) -> (r: u8)
    requires
        d < 16,
    ensures
        r == hex_digit(d as nat),
{
    if d < 10 {
        0x30 + (d as u8)
    } else {
        0x57 + (d as u8)
    }
}

/// Render a machine word as `0x` followed by its lowercase hex digits.
pub fn format_hex(n: usize) -> (r: Vec<u8>)
    ensures
        r@ == hex_repr(n as nat),
        r@.len() <= 18,
{
    let mut digits: Vec<u8> = Vec::new();
    let mut m = n;
    while m >= 16
        invariant
            hex_digits(n as nat) == hex_digits(m as nat) + digits@,
        decreases m,
    {
        let ghost digits_pre = digits@;
        let ghost m_pre = m as nat;
        let d = hex_digit_byte(m % 16);
        digits.insert(0, d);
        m = m / 16;
        proof {
            assert(hex_digits(m_pre) == hex_digits(m_pre / 16).push(hex_digit(m_pre % 16)));
            assert(digits@ =~= seq![hex_digit(m_pre % 16)] + digits_pre);
            assert(hex_digits(m_pre / 16).push(hex_digit(m_pre % 16)) + digits_pre
                =~= hex_digits(m_pre / 16) + digits@);
        }
    }
    let ghost digits_pre = digits@;
    let ghost m_last = m as nat;
    let d = hex_digit_byte(m);
    digits.insert(0, d);
    proof {
        assert(hex_digits(m_last) == seq![hex_digit(m_last)]);
        assert(digits@ =~= seq![hex_digit(m_last)] + digits_pre);
        assert(hex_digits(m_last) + digits_pre =~= digits@);
    }
    let mut r: Vec<u8> = Vec::new();
    r.push(0x30);
    r.push(0x78);
    let ghost prefix = r@;
    for i in 0..digits.len()
        invariant
            r@ == prefix + digits@.take(i as int),
            prefix == seq![0x30u8, 0x78u8],
    {
        r.push(digits[i]);
        assert(digits@.take(i + 1) =~= digits@.take(i as int).push(digits@[i as int]));
    }
    proof {
        assert(digits@.take(digits@.len() as int) =~= digits@);
        lemma_hex_digits_len_word(n);
    }
    r
}

} // verus!
