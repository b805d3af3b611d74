//! Verified text helpers: lexicographic order on character sequences,
//! substring search, and decimal rendering of integers.

use vstd::prelude::*;

verus! {

/// Lexicographic "less or equal" on character sequences, by code point.
pub open spec fn lex_le(a: Seq<char>, b: Seq<char>) -> bool
    decreases a.len(),
{
    if a.len() == 0 {
        true
    } else if b.len() == 0 {
        false
    } else if (a[0] as u32) < (b[0] as u32) {
        true
    } else if (a[0] as u32) > (b[0] as u32) {
        false
    } else {
        lex_le(a.skip(1), b.skip(1))
    }
}

/// Two sequences with a common prefix compare as their tails do.
proof fn lemma_lex_skip(a: Seq<char>, b: Seq<char>, i: int)
    requires
        0 <= i <= a.len(),
        i <= b.len(),
        forall|k: int| 0 <= k < i ==> (a[k] as u32) == (b[k] as u32),
    ensures
        lex_le(a, b) == lex_le(a.skip(i), b.skip(i)),
    decreases i,
{
    if i == 0 {
        assert(a.skip(0) =~= a);
        assert(b.skip(0) =~= b);
    } else {
        assert((a[0] as u32) == (b[0] as u32));
        lemma_lex_skip(a.skip(1), b.skip(1), i - 1);
        assert(a.skip(1).skip(i - 1) =~= a.skip(i));
        assert(b.skip(1).skip(i - 1) =~= b.skip(i));
    }
}

/// The order is total.
pub proof fn lemma_lex_total(a: Seq<char>, b: Seq<char>)
    ensures
        lex_le(a, b) || lex_le(b, a),
    decreases a.len(),
{
    if a.len() != 0 && b.len() != 0 && (a[0] as u32) == (b[0] as u32) {
        lemma_lex_total(a.skip(1), b.skip(1));
    }
}

/// The order is transitive.
pub proof fn lemma_lex_trans(a: Seq<char>, b: Seq<char>, c: Seq<char>)
    requires
        lex_le(a, b),
        lex_le(b, c),
    ensures
        lex_le(a, c),
    decreases a.len(),
{
    if a.len() != 0 && c.len() != 0 {
        if b.len() != 0 && (a[0] as u32) == (b[0] as u32) && (b[0] as u32) == (c[0] as u32) {
            lemma_lex_trans(a.skip(1), b.skip(1), c.skip(1));
        }
    }
}

/// Compares two strings in the order `lex_le` describes.
pub fn str_le(a: &str, b: &str) -> (r: bool)
    ensures
        r == lex_le(a@, b@),
{
    let alen = a.unicode_len();
    let blen = b.unicode_len();
    let mut i: usize = 0;
    loop
        invariant
            i <= alen,
            i <= blen,
            alen == a@.len(),
            blen == b@.len(),
            forall|k: int| 0 <= k < i ==> (a@[k] as u32) == (b@[k] as u32),
        decreases alen - i,
    {
        proof {
            lemma_lex_skip(a@, b@, i as int);
        }
        if i == alen {
            return true;
        }
        if i == blen {
            return false;
        }
        let ca = a.get_char(i);
        let cb = b.get_char(i);
        if (ca as u32) != (cb as u32) {
            return (ca as u32) < (cb as u32);
        }
        i = i + 1;
    }
}

/// `needle` occurs contiguously inside `hay`.
pub open spec fn is_substring(needle: Seq<char>, hay: Seq<char>) -> bool {
    exists|i: int|
        0 <= i && i + needle.len() <= hay.len() && #[trigger] hay.subrange(i, i + needle.len())
            == needle
}

/// Substring search; `r` is true exactly when `needle` occurs in `hay`.
pub fn str_contains(hay: &str, needle: &str) -> (r: bool)
    ensures
        r == is_substring(needle@, hay@),
{
    let hlen = hay.unicode_len();
    let nlen = needle.unicode_len();
    if nlen > hlen {
        assert(!is_substring(needle@, hay@));
        return false;
    }
    let last = hlen - nlen;
    let mut i: usize = 0;
    loop
        invariant
            i <= last + 1,
            last == hlen - nlen,
            nlen <= hlen,
            hlen == hay@.len(),
            nlen == needle@.len(),
            forall|p: int|
                0 <= p < i ==> #[trigger] hay@.subrange(p, p + needle@.len()) != needle@,
        decreases last + 1 - i,
    {
        if i > last {
            assert forall|p: int|
                0 <= p && p + needle@.len() <= hay@.len() implies #[trigger] hay@.subrange(
                p,
                p + needle@.len(),
            ) != needle@ by {
                assert(p < i);
            }
            return false;
        }
        let mut j: usize = 0;
        let mut mismatch = false;
        while j < nlen
            invariant
                i <= last,
                last == hlen - nlen,
                hlen == hay@.len(),
                nlen == needle@.len(),
                j <= nlen,
                !mismatch ==> forall|k: int| 0 <= k < j ==> hay@[i + k] == needle@[k],
                mismatch ==> hay@.subrange(i as int, i + needle@.len()) != needle@,
            decreases nlen - j,
        {
            let hc = hay.get_char(i + j);
            let nc = needle.get_char(j);
            if hc != nc {
                proof {
                    let sub = hay@.subrange(i as int, i + needle@.len());
                    assert(sub[j as int] == hay@[i + j]);
                }
                mismatch = true;
                j = nlen;
            } else {
                j = j + 1;
            }
        }
        if !mismatch {
            proof {
                assert(hay@.subrange(i as int, i + needle@.len()) =~= needle@);
            }
            return true;
        }
        proof {
            if nlen == 0 {
                assert(hay@.subrange(i as int, i as int) =~= needle@);
            }
        }
        i = i + 1;
    }
}

/// The character of a single decimal digit.
pub open spec fn digit_char(d: int) -> char {
    if d == 0 {
        '0'
    } else if d == 1 {
        '1'
    } else if d == 2 {
        '2'
    } else if d == 3 {
        '3'
    } else if d == 4 {
        '4'
    } else if d == 5 {
        '5'
    } else if d == 6 {
        '6'
    } else if d == 7 {
        '7'
    } else if d == 8 {
        '8'
    } else {
        '9'
    }
}

/// Decimal digit sequence of a non-negative integer, most significant first.
pub open spec fn dec_digits(n: nat) -> Seq<char>
    decreases n,
{
    if n < 10 {
        seq![digit_char(n as int)]
    } else {
        dec_digits(n / 10).push(digit_char((n % 10) as int))
    }
}

/// Decimal rendering of an integer, with a leading minus when negative.
pub open spec fn dec_int(n: int) -> Seq<char> {
    if n < 0 {
        seq!['-'] + dec_digits((-n) as nat)
    } else {
        dec_digits(n as nat)
    }
}

/// The one-character string of a decimal digit.
fn digit_str(d: u128) -> (s: &'static str)
    requires
        d < 10,
    ensures
        s@ == seq![digit_char(d as int)],
{
    proof {
        reveal_strlit("0");
        reveal_strlit("1");
        reveal_strlit("2");
        reveal_strlit("3");
        reveal_strlit("4");
        reveal_strlit("5");
        reveal_strlit("6");
        reveal_strlit("7");
        reveal_strlit("8");
        reveal_strlit("9");
    }
    if d == 0 {
        proof { assert("0"@ =~= seq![digit_char(0)]); }
        "0"
    } else if d == 1 {
        proof { assert("1"@ =~= seq![digit_char(1)]); }
        "1"
    } else if d == 2 {
        proof { assert("2"@ =~= seq![digit_char(2)]); }
        "2"
    } else if d == 3 {
        proof { assert("3"@ =~= seq![digit_char(3)]); }
        "3"
    } else if d == 4 {
        proof { assert("4"@ =~= seq![digit_char(4)]); }
        "4"
    } else if d == 5 {
        proof { assert("5"@ =~= seq![digit_char(5)]); }
        "5"
    } else if d == 6 {
        proof { assert("6"@ =~= seq![digit_char(6)]); }
        "6"
    } else if d == 7 {
        proof { assert("7"@ =~= seq![digit_char(7)]); }
        "7"
    } else if d == 8 {
        proof { assert("8"@ =~= seq![digit_char(8)]); }
        "8"
    } else {
        proof { assert("9"@ =~= seq![digit_char(9)]); }
        "9"
    }
}

/// Renders a non-negative integer in decimal.
pub fn u128_dec(n: u128) -> (s: String)
    ensures
        s@ == dec_digits(n as nat),
    decreases n,
{
    if n < 10 {
        String::from_str(digit_str(n))
    } else {
        let mut s = u128_dec(n / 10);
        s.append(digit_str(n % 10));
        s
    }
}

/// Renders a signed integer in decimal.
pub fn i64_dec(n: i64) -> (s: String)
    ensures
        s@ == dec_int(n as int),
{
    if n >= 0 {
        u128_dec(n as u128)
    } else {
        proof {
            reveal_strlit("-");
        }
        let mut s = String::from_str("-");
        assert(s@ =~= seq!['-']);
        let mag = (-(n as i128)) as u128;
        let rest = u128_dec(mag);
        s.append(rest.as_str());
        proof {
            assert(s@ =~= dec_int(n as int));
        }
        s
    }
}

/// One decimal of `size / unit`, rounded to nearest with ties to even,
/// as the tenfold integer value.
pub open spec fn rounded_tenths(size: int, unit: int) -> int
    recommends
        unit > 0,
        size >= 0,
{
    let t = size * 10 / unit;
    let r = size * 10 % unit;
    if 2 * r > unit {
        t + 1
    } else if 2 * r == unit && t % 2 == 1 {
        t + 1
    } else {
        t
    }
}

/// A byte count rendered for display: plain bytes below one kibibyte,
/// otherwise one decimal of kibibytes or mebibytes.
pub open spec fn size_repr(size: int) -> Seq<char> {
    if size < 1024 {
        dec_int(size) + " B"@
    } else if size < 1048576 {
        let v = rounded_tenths(size, 1024);
        dec_digits((v / 10) as nat) + "."@ + dec_digits((v % 10) as nat) + " KB"@
    } else {
        let v = rounded_tenths(size, 1048576);
        dec_digits((v / 10) as nat) + "."@ + dec_digits((v % 10) as nat) + " MB"@
    }
}

/// Renders a byte count as `size_repr` describes.
pub fn format_size(size: i64) -> (s: String)
    ensures
        s@ == size_repr(size as int),
{
    if size < 1024 {
        let mut s = i64_dec(size);
        s.append(" B");
        return s;
    }
    let unit: i128 = if size < 1048576 {
        1024
    } else {
        1048576
    };
    let wide: i128 = (size as i128) * 10;
    let t: i128 = wide / unit;
    let r: i128 = wide % unit;
    let v: i128 = if 2 * r > unit {
        t + 1
    } else if 2 * r == unit && t % 2 == 1 {
        t + 1
    } else {
        t
    };
    proof {
        assert(v == rounded_tenths(size as int, unit as int));
        assert(v >= 0);
    }
    let mut s = u128_dec((v / 10) as u128);
    s.append(".");
    let digit = u128_dec((v % 10) as u128);
    s.append(digit.as_str());
    if size < 1048576 {
        s.append(" KB");
    } else {
        s.append(" MB");
    }
    s
}

} // verus!
