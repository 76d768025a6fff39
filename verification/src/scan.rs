//! Searching and reading raw bytes: first occurrence of a token, byte
//! comparison, bounded decimal and hexadecimal number reads.

use vstd::prelude::*;

use crate::encode::dec_digits;

verus! {

/// `needle` occurs in `hay` starting at position `i`.
pub open spec fn match_at(hay: Seq<u8>, needle: Seq<u8>, i: int) -> bool {
    &&& 0 <= i
    &&& i + needle.len() <= hay.len()
    &&& hay.subrange(i, i + needle.len() as int) == needle
}

/// Compare `hay[i..i+needle.len()]` with `needle`.
pub fn eq_at(hay: &[u8], needle: &[u8], i: usize) -> (r: bool)
    requires
        i + needle@.len() <= hay@.len(),
    ensures
        r == match_at(hay@, needle@, i as int),
{
    let hn: usize = hay.len();
    let mut k: usize = 0;
    while k < needle.len()
        invariant
            hn == hay@.len(),
            i + needle@.len() <= hay@.len(),
            k <= needle@.len(),
            forall|m: int| 0 <= m < k ==> hay@[i + m] == needle@[m],
        decreases needle@.len() - k,
    {
        if hay[i + k] != needle[k] {
            proof {
                assert(hay@.subrange(i as int, i + needle@.len() as int)[k as int]
                    != needle@[k as int]);
            }
            return false;
        }
        k = k + 1;
    }
    proof {
        assert(hay@.subrange(i as int, i + needle@.len() as int) =~= needle@);
    }
    true
}

/// Find the first occurrence of `needle` in `hay` at or after `from`.
pub fn find_from(hay: &[u8], needle: &[u8], from: usize) -> (r: Option<usize>)
    requires
        needle@.len() >= 1,
    ensures
        match r {
            Some(i) => {
                &&& from <= i
                &&& match_at(hay@, needle@, i as int)
                &&& forall|j: int| from <= j < i ==> !match_at(hay@, needle@, j)
            },
            None => forall|j: int| from <= j ==> !match_at(hay@, needle@, j),
        },
{
    if hay.len() < needle.len() {
        return None;
    }
    let last: usize = hay.len() - needle.len();
    let mut i: usize = from;
    while i <= last
        invariant
            needle@.len() >= 1,
            last == hay@.len() - needle@.len(),
            last < usize::MAX,
            from <= i,
            forall|j: int| from <= j < i ==> !match_at(hay@, needle@, j),
        decreases last + 1 - i,
    {
        if eq_at(hay, needle, i) {
            return Some(i);
        }
        i = i + 1;
    }
    None
}

/// `tok` occurs somewhere in `s`.
pub open spec fn has_match(s: Seq<u8>, tok: Seq<u8>) -> bool {
    exists|j: int| match_at(s, tok, j)
}

/// The first position at which `tok` occurs in `s` (meaningful only when
/// `has_match` holds).
pub open spec fn first_match(s: Seq<u8>, tok: Seq<u8>) -> int {
    choose|j: int|
        match_at(s, tok, j) && (forall|k: int| 0 <= k < j ==> !match_at(s, tok, k))
}

/// A position that matches and has no earlier match is the first match.
pub proof fn lemma_first_match(s: Seq<u8>, tok: Seq<u8>, j: int)
    requires
        match_at(s, tok, j),
        forall|k: int| 0 <= k < j ==> !match_at(s, tok, k),
    ensures
        has_match(s, tok),
        first_match(s, tok) == j,
{
    assert(has_match(s, tok));
    let j2 = first_match(s, tok);
    assert(match_at(s, tok, j2) && (forall|k: int| 0 <= k < j2 ==> !match_at(s, tok, k))) by {
        assert(match_at(s, tok, j) && (forall|k: int| 0 <= k < j ==> !match_at(s, tok, k)));
    }
    if j2 < j {
        assert(!match_at(s, tok, j2));
    } else if j < j2 {
        assert(!match_at(s, tok, j));
    }
}

/// A match inside a subrange is a match in the whole sequence, and the
/// other way round.
pub proof fn lemma_match_at_subrange(s: Seq<u8>, a: int, b: int, tok: Seq<u8>, j: int)
    requires
        0 <= a <= b <= s.len(),
        0 <= j,
        a + j + tok.len() <= b,
    ensures
        match_at(s.subrange(a, b), tok, j) == match_at(s, tok, a + j),
{
    if match_at(s.subrange(a, b), tok, j) {
        assert(s.subrange(a + j, a + j + tok.len() as int)
            =~= s.subrange(a, b).subrange(j, j + tok.len() as int));
    }
    if match_at(s, tok, a + j) {
        assert(s.subrange(a, b).subrange(j, j + tok.len() as int)
            =~= s.subrange(a + j, a + j + tok.len() as int));
    }
}

/// The end of the run of decimal digits that starts at `o`.
pub open spec fn dec_run_end(s: Seq<u8>, o: int) -> int {
    choose|e: int|
        o <= e <= s.len() && all_dec_digits(s.subrange(o, e)) && (e == s.len() || !(48 <= s[e]
            <= 57))
}

/// The value of the run of decimal digits that starts at `o`.
pub open spec fn dec_run_value(s: Seq<u8>, o: int) -> nat {
    dec_value(s.subrange(o, dec_run_end(s, o)))
}

/// A maximal digit run from `o` to `e` pins `dec_run_end` down to `e`.
pub proof fn lemma_dec_run(s: Seq<u8>, o: int, e: int)
    requires
        0 <= o <= e <= s.len(),
        all_dec_digits(s.subrange(o, e)),
        e == s.len() || !(48 <= s[e] <= 57),
    ensures
        dec_run_end(s, o) == e,
        dec_run_value(s, o) == dec_value(s.subrange(o, e)),
{
    let e2 = dec_run_end(s, o);
    assert(o <= e2 <= s.len() && all_dec_digits(s.subrange(o, e2)) && (e2 == s.len() || !(48
        <= s[e2] <= 57))) by {
        assert(o <= e <= s.len() && all_dec_digits(s.subrange(o, e)) && (e == s.len() || !(48
            <= s[e] <= 57)));
    }
    if e2 < e {
        assert(48 <= s.subrange(o, e)[e2 - o] <= 57);
    } else if e < e2 {
        assert(48 <= s.subrange(o, e2)[e - o] <= 57);
    }
}

/// The value of a run of decimal ASCII digits, most significant first.
pub open spec fn dec_value(s: Seq<u8>) -> nat
    decreases s.len(),
{
    if s.len() == 0 {
        0
    } else {
        dec_value(s.drop_last()) * 10 + (s.last() - 48) as nat
    }
}

/// Whether every byte of `s` is a decimal ASCII digit.
pub open spec fn all_dec_digits(s: Seq<u8>) -> bool {
    forall|i: int| 0 <= i < s.len() ==> 48 <= #[trigger] s[i] <= 57
}

/// The `n`-th power of ten.
pub open spec fn pow10(n: nat) -> nat
    decreases n,
{
    if n == 0 {
        1
    } else {
        10 * pow10((n - 1) as nat)
    }
}

/// Powers of ten grow with the exponent.
pub proof fn lemma_pow10_mono(a: nat, b: nat)
    requires
        a <= b,
    ensures
        pow10(a) <= pow10(b),
    decreases b,
{
    if a < b {
        lemma_pow10_mono(a, (b - 1) as nat);
    }
}

/// A run of `n` decimal digits denotes a value below the `n`-th power of ten.
pub proof fn lemma_dec_value_bound(s: Seq<u8>)
    requires
        all_dec_digits(s),
    ensures
        dec_value(s) < pow10(s.len()),
    decreases s.len(),
{
    if s.len() > 0 {
        assert(all_dec_digits(s.drop_last()));
        lemma_dec_value_bound(s.drop_last());
        assert(48 <= s[s.len() - 1] <= 57);
    }
}

/// A decimal-digit run readable at `o`: a digit stands there and the run
/// is at most nine digits long (protocol fields never need more).
pub open spec fn dec_run_ok(s: Seq<u8>, o: int) -> bool {
    &&& 0 <= o < s.len()
    &&& 48 <= s[o] <= 57
    &&& !(o + 10 <= s.len() && all_dec_digits(s.subrange(o, o + 10)))
}

/// Read the run of decimal digits that starts at `pos`: its value and its
/// end position. `None` exactly when no digit stands at `pos` or the run
/// is longer than nine digits.
pub fn read_dec(buf: &[u8], pos: usize) -> (r: Option<(usize, usize)>)
    ensures
        match r {
            Some((v, end)) => {
                &&& pos < end <= buf@.len()
                &&& end - pos <= 9
                &&& all_dec_digits(buf@.subrange(pos as int, end as int))
                &&& v == dec_value(buf@.subrange(pos as int, end as int))
                &&& (end < buf@.len() ==> !(48 <= buf@[end as int] <= 57))
                &&& dec_run_ok(buf@, pos as int)
                &&& end == dec_run_end(buf@, pos as int)
                &&& v == dec_run_value(buf@, pos as int)
            },
            None => !dec_run_ok(buf@, pos as int),
        },
{
    if pos >= buf.len() || !(48 <= buf[pos] && buf[pos] <= 57) {
        return None;
    }
    let mut end: usize = pos;
    let mut v: usize = 0;
    while end < buf.len() && 48 <= buf[end] && buf[end] <= 57
        invariant
            pos <= end <= buf@.len(),
            end - pos <= 9,
            all_dec_digits(buf@.subrange(pos as int, end as int)),
            v == dec_value(buf@.subrange(pos as int, end as int)),
        decreases buf@.len() - end,
    {
        if end - pos == 9 {
            proof {
                assert(all_dec_digits(buf@.subrange(pos as int, pos + 10))) by {
                    assert(forall|i: int|
                        0 <= i < 10 ==> #[trigger] buf@.subrange(pos as int, pos + 10)[i] == buf@[pos + i]);
                    assert(forall|i: int|
                        0 <= i < 9 ==> #[trigger] buf@.subrange(pos as int, end as int)[i] == buf@[pos + i]);
                }
            }
            return None;
        }
        proof {
            lemma_dec_value_bound(buf@.subrange(pos as int, end as int));
            lemma_pow10_mono((end - pos) as nat, 8);
            reveal_with_fuel(pow10, 10);
            assert(v < 100000000);
        }
        let d: u8 = buf[end];
        v = v * 10 + (d - 48) as usize;
        end = end + 1;
        proof {
            assert(buf@.subrange(pos as int, end as int).drop_last()
                =~= buf@.subrange(pos as int, end - 1));
        }
    }
    if end == pos {
        return None;
    }
    proof {
        if pos + 10 <= buf@.len() && all_dec_digits(buf@.subrange(pos as int, pos + 10)) {
            assert(48 <= buf@.subrange(pos as int, pos + 10)[end - pos] <= 57);
            assert(false);
        }
        lemma_dec_run(buf@, pos as int, end as int);
    }
    Some((v, end))
}

/// Whether `b` is a lowercase hexadecimal ASCII digit.
pub open spec fn is_hex_digit(b: u8) -> bool {
    (48 <= b <= 57) || (97 <= b <= 102)
}

/// Whether every byte of `s` is a lowercase hexadecimal ASCII digit.
pub open spec fn all_hex_digits(s: Seq<u8>) -> bool {
    forall|i: int| 0 <= i < s.len() ==> is_hex_digit(#[trigger] s[i])
}

/// The value a single hexadecimal digit denotes.
pub open spec fn hex_digit_value(b: u8) -> nat {
    if b <= 57 {
        (b - 48) as nat
    } else {
        (b - 87) as nat
    }
}

/// The value of a run of hexadecimal ASCII digits, most significant first.
pub open spec fn hex_value(s: Seq<u8>) -> nat
    decreases s.len(),
{
    if s.len() == 0 {
        0
    } else {
        hex_value(s.drop_last()) * 16 + hex_digit_value(s.last())
    }
}

/// The `n`-th power of sixteen.
pub open spec fn pow16(n: nat) -> nat
    decreases n,
{
    if n == 0 {
        1
    } else {
        16 * pow16((n - 1) as nat)
    }
}

/// Powers of sixteen grow with the exponent.
pub proof fn lemma_pow16_mono(a: nat, b: nat)
    requires
        a <= b,
    ensures
        pow16(a) <= pow16(b),
    decreases b,
{
    if a < b {
        lemma_pow16_mono(a, (b - 1) as nat);
    }
}

/// A run of `n` hexadecimal digits denotes a value below the `n`-th power
/// of sixteen.
pub proof fn lemma_hex_value_bound(s: Seq<u8>)
    requires
        all_hex_digits(s),
    ensures
        hex_value(s) < pow16(s.len()),
    decreases s.len(),
{
    if s.len() > 0 {
        assert(all_hex_digits(s.drop_last()));
        lemma_hex_value_bound(s.drop_last());
        assert(is_hex_digit(s[s.len() - 1]));
    }
}

/// A hexadecimal run readable at `o`: a digit stands there and the run is
/// at most seven digits long (chunk lengths never need more).
pub open spec fn hex_run_ok(s: Seq<u8>, o: int) -> bool {
    &&& 0 <= o < s.len()
    &&& is_hex_digit(s[o])
    &&& !(o + 8 <= s.len() && all_hex_digits(s.subrange(o, o + 8)))
}

/// Read the run of lowercase hexadecimal digits that starts at `pos`: its
/// value and its end position. `None` exactly when no digit stands at
/// `pos` or the run is longer than seven digits.
pub fn read_hex(buf: &[u8], pos: usize) -> (r: Option<(usize, usize)>)
    ensures
        match r {
            Some((v, end)) => {
                &&& pos < end <= buf@.len()
                &&& end - pos <= 7
                &&& all_hex_digits(buf@.subrange(pos as int, end as int))
                &&& v == hex_value(buf@.subrange(pos as int, end as int))
                &&& (end < buf@.len() ==> !is_hex_digit(buf@[end as int]))
                &&& hex_run_ok(buf@, pos as int)
            },
            None => !hex_run_ok(buf@, pos as int),
        },
{
    if pos >= buf.len() {
        return None;
    }
    let b0: u8 = buf[pos];
    if !((48 <= b0 && b0 <= 57) || (97 <= b0 && b0 <= 102)) {
        return None;
    }
    let mut end: usize = pos;
    let mut v: usize = 0;
    while end < buf.len() && ((48 <= buf[end] && buf[end] <= 57) || (97 <= buf[end] && buf[end]
        <= 102))
        invariant
            pos <= end <= buf@.len(),
            end - pos <= 7,
            all_hex_digits(buf@.subrange(pos as int, end as int)),
            v == hex_value(buf@.subrange(pos as int, end as int)),
        decreases buf@.len() - end,
    {
        if end - pos == 7 {
            proof {
                assert(all_hex_digits(buf@.subrange(pos as int, pos + 8))) by {
                    assert(forall|i: int|
                        0 <= i < 8 ==> #[trigger] buf@.subrange(pos as int, pos + 8)[i] == buf@[pos + i]);
                    assert(forall|i: int|
                        0 <= i < 7 ==> #[trigger] buf@.subrange(pos as int, end as int)[i] == buf@[pos + i]);
                }
            }
            return None;
        }
        proof {
            lemma_hex_value_bound(buf@.subrange(pos as int, end as int));
            lemma_pow16_mono((end - pos) as nat, 6);
            reveal_with_fuel(pow16, 8);
            assert(v < 16777216);
        }
        let d: u8 = buf[end];
        let dv: usize = if d <= 57 {
            (d - 48) as usize
        } else {
            (d - 87) as usize
        };
        v = v * 16 + dv;
        end = end + 1;
        proof {
            assert(buf@.subrange(pos as int, end as int).drop_last()
                =~= buf@.subrange(pos as int, end - 1));
        }
    }
    if end == pos {
        return None;
    }
    proof {
        if pos + 8 <= buf@.len() && all_hex_digits(buf@.subrange(pos as int, pos + 8)) {
            assert(is_hex_digit(buf@.subrange(pos as int, pos + 8)[end - pos]));
            assert(false);
        }
    }
    Some((v, end))
}

} // verus!
