//! Small verified string utilities: character-wise equality on `&str` and a
//! decimal formatter for `u64`, used by the selector-hashing scheme.

use vstd::prelude::*;

verus! {

/// Character-wise equality of two string slices, stated over their views.
pub fn str_eq(a: &str, b: &str) -> (r: bool)
    ensures
        r == (a@ == b@),
{
    let alen = a.unicode_len();
    let blen = b.unicode_len();
    if alen != blen {
        assert(a@ != b@) by {
            assert(a@.len() != b@.len());
        }
        return false;
    }
    let mut i: usize = 0;
    while i < alen
        invariant
            i <= alen,
            alen == a@.len(),
            alen == b@.len(),
            forall|j: int| 0 <= j < i ==> a@[j] == b@[j],
        decreases alen - i,
    {
        if a.get_char(i) != b.get_char(i) {
            return false;
        }
        i = i + 1;
    }
    assert(a@ =~= b@);
    true
}

/// The character for a single decimal digit.
pub open spec fn digit_char(d: nat) -> char {
    if d == 0 {
        '0'
    } else if d == 1 {
        '1'
    } else if d == 2 {
        '2'
    } else if d == 3 {
        '3'
    } else if d == 4 {
        '4'
    } else if d == 5 {
        '5'
    } else if d == 6 {
        '6'
    } else if d == 7 {
        '7'
    } else if d == 8 {
        '8'
    } else {
        '9'
    }
}

/// The decimal representation of a natural number, most significant digit
/// first, with no leading zeros (and `"0"` for zero).
pub open spec fn dec_str(n: nat) -> Seq<char>
    decreases n,
{
    if n < 10 {
        seq![digit_char(n)]
    } else {
        dec_str(n / 10) + seq![digit_char(n % 10)]
    }
}

/// The decimal digits of `ds`, read back to front.
spec fn rev_digit_chars(ds: Seq<u64>) -> Seq<char> {
    Seq::new(ds.len(), |i: int| digit_char(ds[ds.len() - 1 - i] as nat))
}

/// Renders `n` in decimal.
pub fn u64_to_string(n: u64) -> (s: String)
    ensures
        s@ == dec_str(n as nat),
{
    let digit_chars = "0123456789";
    proof {
        reveal_strlit("0123456789");
        assert(forall|d: int| 0 <= d < 10 ==> digit_chars@[d] == digit_char(d as nat));
    }
    let mut digits: Vec<u64> = Vec::new();
    let mut m: u64 = n;
    digits.push(m % 10);
    m = m / 10;
    while m > 0
        invariant
            digits.len() > 0,
            forall|j: int| 0 <= j < digits.len() ==> digits[j] < 10,
            dec_str(n as nat) == if m > 0 {
                dec_str(m as nat) + rev_digit_chars(digits@)
            } else {
                rev_digit_chars(digits@)
            },
        decreases m,
    {
        let ghost m0 = m as nat;
        let ghost ds0 = digits@;
        digits.push(m % 10);
        m = m / 10;
        proof {
            assert(rev_digit_chars(digits@) =~= seq![digit_char(m0 % 10)] + rev_digit_chars(ds0));
            if m > 0 {
                assert(dec_str(m0) == dec_str(m0 / 10) + seq![digit_char(m0 % 10)]);
                assert(dec_str(m0) + rev_digit_chars(ds0) =~= dec_str(m as nat)
                    + rev_digit_chars(digits@));
            } else {
                assert(m0 < 10);
                assert(dec_str(m0) == seq![digit_char(m0)]);
                assert(dec_str(m0) + rev_digit_chars(ds0) =~= rev_digit_chars(digits@));
            }
        }
    }
    proof {
        if n >= 10 {
            assert(n as nat / 10 > 0);
        }
        assert(dec_str(n as nat) == rev_digit_chars(digits@));
    }
    let mut s = String::new();
    let mut i: usize = digits.len();
    while i > 0
        invariant
            i <= digits.len(),
            forall|j: int| 0 <= j < digits.len() ==> digits[j] < 10,
            digit_chars@.len() == 10,
            forall|d: int| 0 <= d < 10 ==> digit_chars@[d] == digit_char(d as nat),
            s@ =~= rev_digit_chars(digits@).subrange(0, digits.len() - i),
        decreases i,
    {
        i = i - 1;
        let d = digits[i];
        let ghost slen = s@.len();
        let ds = digit_chars.substring_char(d as usize, d as usize + 1);
        s.append(ds);
        proof {
            assert(ds@ =~= seq![digit_char(d as nat)]);
            assert(s@ =~= rev_digit_chars(digits@).subrange(0, digits.len() - i));
        }
    }
    proof {
        assert(s@ =~= rev_digit_chars(digits@));
    }
    s
}

/// Seed of the 64-bit FNV-1a hash.
pub open spec fn fnv_offset() -> u64 {
    0xcbf29ce484222325u64
}

/// Multiplier of the 64-bit FNV-1a hash.
pub open spec fn fnv_prime() -> u64 {
    0x100000001b3u64
}

/// One FNV-1a round: fold one character's code point into the state.
pub open spec fn fnv1a_round(h: u64, c: char) -> u64 {
    (h ^ (c as u64)).wrapping_mul(fnv_prime())
}

/// The 64-bit FNV-1a hash of a character sequence, one round per character.
pub open spec fn fnv1a(s: Seq<char>) -> u64
    decreases s.len(),
{
    if s.len() == 0 {
        fnv_offset()
    } else {
        fnv1a_round(fnv1a(s.drop_last()), s.last())
    }
}

/// Computes the FNV-1a hash of a string's characters.
pub fn fnv1a_hash(s: &str) -> (h: u64)
    ensures
        h == fnv1a(s@),
{
    let len = s.unicode_len();
    let mut h: u64 = 0xcbf29ce484222325u64;
    let mut i: usize = 0;
    while i < len
        invariant
            i <= len,
            len == s@.len(),
            h == fnv1a(s@.take(i as int)),
        decreases len - i,
    {
        let c = s.get_char(i);
        h = (h ^ (c as u64)).wrapping_mul(0x100000001b3u64);
        proof {
            assert(s@.take(i + 1).drop_last() =~= s@.take(i as int));
            assert(s@.take(i + 1).last() == s@[i as int]);
        }
        i = i + 1;
    }
    proof {
        assert(s@.take(len as int) =~= s@);
    }
    h
}

} // verus!
