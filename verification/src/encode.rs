//! Byte-level encoding helpers: appending slices, decimal and hexadecimal
//! ASCII renderings of integers.

use vstd::prelude::*;

verus! {

/// The two-byte line terminator used throughout the wire protocol.
pub open spec fn crlf() -> Seq<u8> {
    seq![13u8, 10u8]
}

/// Decimal ASCII digits of `n`, most significant first.
pub open spec fn dec_digits(n: nat) -> Seq<u8>
    decreases n,
{
    if n < 10 {
        seq![(48 + n) as u8]
    } else {
        dec_digits(n / 10) + seq![(48 + n % 10) as u8]
    }
}

/// Lowercase hexadecimal ASCII digit for a value below 16.
pub open spec fn hex_digit(d: nat) -> u8 {
    if d < 10 {
        (48 + d) as u8
    } else {
        (87 + d) as u8
    }
}

/// Lowercase hexadecimal ASCII digits of `n`, most significant first.
pub open spec fn hex_digits(n: nat) -> Seq<u8>
    decreases n,
{
    if n < 16 {
        seq![hex_digit(n)]
    } else {
        hex_digits(n / 16) + seq![hex_digit(n % 16)]
    }
}

/// A value below the `k`-th power of ten prints in at most `k` digits.
pub proof fn lemma_dec_digits_len(n: nat, k: nat)
    requires
        1 <= k,
        n < crate::scan::pow10(k),
    ensures
        dec_digits(n).len() <= k,
    decreases n,
{
    if n < 10 {
    } else {
        assert(crate::scan::pow10(k) == 10 * crate::scan::pow10((k - 1) as nat));
        if k == 1 {
            assert(crate::scan::pow10(1) == 10) by {
                reveal_with_fuel(crate::scan::pow10, 2);
            }
        }
        assert(n / 10 < crate::scan::pow10((k - 1) as nat)) by {
            assert(n < 10 * crate::scan::pow10((k - 1) as nat));
        }
        lemma_dec_digits_len(n / 10, (k - 1) as nat);
    }
}

/// Any machine-word value prints in at most twenty digits.
pub proof fn lemma_dec_digits_len_max(n: nat)
    requires
        n <= usize::MAX,
    ensures
        dec_digits(n).len() <= 20,
{
    assert(crate::scan::pow10(20) > usize::MAX as nat) by {
        reveal_with_fuel(crate::scan::pow10, 21);
    }
    lemma_dec_digits_len(n, 20);
}

/// A value below the `k`-th power of sixteen prints in at most `k` hex
/// digits.
pub proof fn lemma_hex_digits_len(n: nat, k: nat)
    requires
        1 <= k,
        n < crate::scan::pow16(k),
    ensures
        hex_digits(n).len() <= k,
    decreases n,
{
    if n < 16 {
    } else {
        assert(crate::scan::pow16(k) == 16 * crate::scan::pow16((k - 1) as nat));
        if k == 1 {
            assert(crate::scan::pow16(1) == 16) by {
                reveal_with_fuel(crate::scan::pow16, 2);
            }
        }
        assert(n / 16 < crate::scan::pow16((k - 1) as nat)) by {
            assert(n < 16 * crate::scan::pow16((k - 1) as nat));
        }
        lemma_hex_digits_len(n / 16, (k - 1) as nat);
    }
}

/// Any machine-word value prints in at most sixteen hex digits.
pub proof fn lemma_hex_digits_len_max(n: nat)
    requires
        n <= usize::MAX,
    ensures
        hex_digits(n).len() <= 16,
{
    assert(crate::scan::pow16(16) > usize::MAX as nat) by {
        reveal_with_fuel(crate::scan::pow16, 17);
    }
    lemma_hex_digits_len(n, 16);
}

/// Relies on bytes::BufMut::put_slice for `Vec<u8>`: transfers the bytes
/// of `src` into the vector, appending at its end.
#[verifier::external_body]
pub(crate) fn put_slice(buf: &mut Vec<u8>, src: &[u8])
    requires
        old(buf)@.len() + src@.len() <= usize::MAX / 2,
    ensures
        final(buf)@ == old(buf)@ + src@,
{
    bytes::BufMut::put_slice(buf, src)
}

/// Append every byte of `s` to `buf`.
pub fn push_all(buf: &mut Vec<u8>, s: &[u8])
    ensures
        final(buf)@ == old(buf)@ + s@,
{
    let mut i: usize = 0;
    while i < s.len()
        invariant
            i <= s.len(),
            buf@ == old(buf)@ + s@.take(i as int),
        decreases s.len() - i,
    {
        buf.push(s[i]);
        proof {
            assert(buf@ =~= old(buf)@ + s@.take(i + 1));
        }
        i = i + 1;
    }
    proof {
        assert(buf@ =~= old(buf)@ + s@);
    }
}

/// Append the decimal rendering of `n` to `buf`.
pub fn push_dec(buf: &mut Vec<u8>, n: usize)
    ensures
        final(buf)@ == old(buf)@ + dec_digits(n as nat),
    decreases n,
{
    if n < 10 {
        buf.push(48 + n as u8);
    } else {
        push_dec(buf, n / 10);
        buf.push(48 + (n % 10) as u8);
        proof {
            assert(buf@ =~= old(buf)@ + dec_digits(n as nat));
        }
    }
}

/// Append the lowercase hexadecimal rendering of `n` to `buf`.
pub fn push_hex(buf: &mut Vec<u8>, n: usize)
    ensures
        final(buf)@ == old(buf)@ + hex_digits(n as nat),
    decreases n,
{
    if n < 16 {
        let d: u8 = if n < 10 {
            48 + n as u8
        } else {
            87 + n as u8
        };
        buf.push(d);
    } else {
        push_hex(buf, n / 16);
        let r: usize = n % 16;
        let d: u8 = if r < 10 {
            48 + r as u8
        } else {
            87 + r as u8
        };
        buf.push(d);
        proof {
            assert(buf@ =~= old(buf)@ + hex_digits(n as nat));
        }
    }
}

} // verus!
