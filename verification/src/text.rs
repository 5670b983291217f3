//! Verified text utilities: decimal rendering of integers, boolean text,
//! and substring search over character sequences.

use vstd::prelude::*;

verus! {

/// The character for a single decimal digit.
pub open spec fn digit_char(d: nat) -> char {
    if d == 0 {
        '0'
    } else if d == 1 {
        '1'
    } else if d == 2 {
        '2'
    } else if d == 3 {
        '3'
    } else if d == 4 {
        '4'
    } else if d == 5 {
        '5'
    } else if d == 6 {
        '6'
    } else if d == 7 {
        '7'
    } else if d == 8 {
        '8'
    } else {
        '9'
    }
}

/// Decimal digits of a positive number, most significant first.
pub open spec fn dec_pos(n: nat) -> Seq<char>
    decreases n,
{
    if n < 10 {
        seq![digit_char(n)]
    } else {
        dec_pos(n / 10).push(digit_char(n % 10))
    }
}

/// Decimal text of a natural number.
pub open spec fn dec_nat(n: nat) -> Seq<char> {
    dec_pos(n)
}

/// Decimal text of a (possibly negative) integer: a leading minus sign
/// followed by the digits of the magnitude.
pub open spec fn dec_int(n: int) -> Seq<char> {
    if n < 0 {
        seq!['-'] + dec_pos((-n) as nat)
    } else {
        dec_pos(n as nat)
    }
}

/// Text of a boolean value.
pub open spec fn bool_text(b: bool) -> Seq<char> {
    if b {
        seq!['t', 'r', 'u', 'e']
    } else {
        seq!['f', 'a', 'l', 's', 'e']
    }
}

/// Appends the character of one decimal digit to a string.
fn push_digit(s: &mut String, d: u64)
    requires
        d < 10,
    ensures
        final(s)@ == old(s)@.push(digit_char(d as nat)),
{
    if d == 0 {
        proof { reveal_strlit("0"); }
        s.append("0");
        assert(final(s)@ =~= old(s)@.push(digit_char(d as nat)));
    } else if d == 1 {
        proof { reveal_strlit("1"); }
        s.append("1");
        assert(final(s)@ =~= old(s)@.push(digit_char(d as nat)));
    } else if d == 2 {
        proof { reveal_strlit("2"); }
        s.append("2");
        assert(final(s)@ =~= old(s)@.push(digit_char(d as nat)));
    } else if d == 3 {
        proof { reveal_strlit("3"); }
        s.append("3");
        assert(final(s)@ =~= old(s)@.push(digit_char(d as nat)));
    } else if d == 4 {
        proof { reveal_strlit("4"); }
        s.append("4");
        assert(final(s)@ =~= old(s)@.push(digit_char(d as nat)));
    } else if d == 5 {
        proof { reveal_strlit("5"); }
        s.append("5");
        assert(final(s)@ =~= old(s)@.push(digit_char(d as nat)));
    } else if d == 6 {
        proof { reveal_strlit("6"); }
        s.append("6");
        assert(final(s)@ =~= old(s)@.push(digit_char(d as nat)));
    } else if d == 7 {
        proof { reveal_strlit("7"); }
        s.append("7");
        assert(final(s)@ =~= old(s)@.push(digit_char(d as nat)));
    } else if d == 8 {
        proof { reveal_strlit("8"); }
        s.append("8");
        assert(final(s)@ =~= old(s)@.push(digit_char(d as nat)));
    } else {
        proof { reveal_strlit("9"); }
        s.append("9");
        assert(final(s)@ =~= old(s)@.push(digit_char(d as nat)));
    }
}

/// The digit characters of a reversed digit vector, most significant first.
spec fn rev_digit_chars(ds: Seq<u64>) -> Seq<char> {
    ds.map_values(|d: u64| digit_char(d as nat)).reverse()
}

/// Appends the decimal text of `n` to a string.
pub fn append_dec_u64(s: &mut String, n: u64)
    ensures
        final(s)@ == old(s)@ + dec_nat(n as nat),
{
    let mut digits: Vec<u64> = Vec::new();
    let mut m: u64 = n;
    let d0: u64 = m % 10;
    digits.push(d0);
    m = m / 10;
    proof {
        assert(rev_digit_chars(digits@) =~= seq![digit_char((n % 10) as nat)]);
        if n < 10 {
            assert(dec_pos(n as nat) == seq![digit_char(n as nat)]);
        }
    }
    while m > 0
        invariant
            m > 0 ==> dec_pos(n as nat) == dec_pos(m as nat) + rev_digit_chars(digits@),
            m == 0 ==> dec_pos(n as nat) == rev_digit_chars(digits@),
            forall|k: int| 0 <= k < digits@.len() ==> digits@[k] < 10,
            digits@.len() >= 1,
        decreases m,
    {
        let ghost prev_m = m as nat;
        let ghost prev = digits@;
        let d: u64 = m % 10;
        digits.push(d);
        m = m / 10;
        proof {
            assert(rev_digit_chars(digits@) =~= seq![digit_char(d as nat)] + rev_digit_chars(
                prev,
            ));
            if prev_m < 10 {
                assert(dec_pos(prev_m) == seq![digit_char(prev_m)]);
                assert(d as nat == prev_m);
                assert(dec_pos(n as nat) =~= rev_digit_chars(digits@));
            } else {
                assert(dec_pos(prev_m) == dec_pos(prev_m / 10).push(digit_char(prev_m % 10)));
                assert(dec_pos(prev_m) =~= dec_pos(m as nat) + seq![digit_char(d as nat)]);
                assert(dec_pos(n as nat) =~= dec_pos(m as nat) + rev_digit_chars(digits@));
            }
        }
    }
    let ghost target = rev_digit_chars(digits@);
    let mut i: usize = digits.len();
    while i > 0
        invariant
            i <= digits@.len(),
            forall|k: int| 0 <= k < digits@.len() ==> digits@[k] < 10,
            target == rev_digit_chars(digits@),
            s@ == old(s)@ + target.take(digits@.len() - i),
        decreases i,
    {
        let ghost done = (digits@.len() - i) as int;
        i = i - 1;
        push_digit(s, digits[i]);
        proof {
            assert(target[done] == digit_char(digits@[i as int] as nat));
            assert(target.take(done + 1) =~= target.take(done).push(target[done]));
            assert(s@ =~= old(s)@ + target.take(digits@.len() - i));
        }
    }
    proof {
        assert(target.take(digits@.len() as int) =~= target);
    }
}

/// Decimal text of an unsigned 64-bit number.
pub fn u64_to_string(n: u64) -> (r: String)
    ensures
        r@ == dec_nat(n as nat),
{
    let mut s = String::new();
    append_dec_u64(&mut s, n);
    proof {
        assert(s@ =~= dec_nat(n as nat));
    }
    s
}

/// Appends the decimal text of a signed 16-bit number to a string.
pub fn append_dec_i16(s: &mut String, n: i16)
    ensures
        final(s)@ == old(s)@ + dec_int(n as int),
{
    if n < 0 {
        proof { reveal_strlit("-"); }
        s.append("-");
        let mag: u64 = (-(n as i32)) as u64;
        append_dec_u64(s, mag);
        proof {
            assert(final(s)@ =~= old(s)@ + dec_int(n as int));
        }
    } else {
        append_dec_u64(s, n as u64);
    }
}

/// Decimal text of a signed 16-bit number.
pub fn i16_to_string(n: i16) -> (r: String)
    ensures
        r@ == dec_int(n as int),
{
    let mut s = String::new();
    append_dec_i16(&mut s, n);
    proof {
        assert(s@ =~= dec_int(n as int));
    }
    s
}

/// Appends `true` or `false` to a string.
pub fn append_bool(s: &mut String, b: bool)
    ensures
        final(s)@ == old(s)@ + bool_text(b),
{
    if b {
        proof { reveal_strlit("true"); }
        s.append("true");
        assert(final(s)@ =~= old(s)@ + bool_text(b));
    } else {
        proof { reveal_strlit("false"); }
        s.append("false");
        assert(final(s)@ =~= old(s)@ + bool_text(b));
    }
}

/// Whether a character is a decimal digit.
pub open spec fn is_digit(c: char) -> bool {
    48 <= c as u32 <= 57
}

/// The numeric value of a decimal digit character.
pub open spec fn digit_val(c: char) -> int {
    c as u32 - 48
}

/// The value of a string of decimal digits, most significant first.
pub open spec fn digits_val(s: Seq<char>) -> int
    decreases s.len(),
{
    if s.len() == 0 {
        0
    } else {
        digits_val(s.drop_last()) * 10 + digit_val(s.last())
    }
}

/// Every character of the sequence is a decimal digit.
pub open spec fn all_digits(s: Seq<char>) -> bool {
    forall|i: int| 0 <= i < s.len() ==> is_digit(s[i])
}

/// The value a signed 16-bit decimal parse yields: an optional sign followed
/// by at least one digit, rejected when the value falls outside the type's
/// range.
pub open spec fn parse_i16_spec(s: Seq<char>) -> Option<i16> {
    let negative = s.len() > 0 && s[0] == '-';
    let digits = if s.len() > 0 && (s[0] == '-' || s[0] == '+') {
        s.drop_first()
    } else {
        s
    };
    if digits.len() == 0 || !all_digits(digits) {
        None
    } else {
        let v = if negative {
            -digits_val(digits)
        } else {
            digits_val(digits)
        };
        if i16::MIN <= v <= i16::MAX {
            Some(v as i16)
        } else {
            None
        }
    }
}

proof fn lemma_digits_val_nonneg(s: Seq<char>)
    requires
        all_digits(s),
    ensures
        digits_val(s) >= 0,
    decreases s.len(),
{
    if s.len() > 0 {
        assert(all_digits(s.drop_last()));
        lemma_digits_val_nonneg(s.drop_last());
    }
}

proof fn lemma_digits_val_take_mono(s: Seq<char>, i: int)
    requires
        all_digits(s),
        0 <= i <= s.len(),
    ensures
        digits_val(s) >= digits_val(s.take(i)),
    decreases s.len() - i,
{
    if i == s.len() {
        assert(s.take(i) =~= s);
    } else {
        assert(s.take(i + 1).drop_last() =~= s.take(i));
        assert(s.take(i + 1).last() == s[i]);
        assert(all_digits(s.take(i)));
        lemma_digits_val_nonneg(s.take(i));
        assert(digits_val(s.take(i + 1)) >= digits_val(s.take(i)));
        lemma_digits_val_take_mono(s, i + 1);
    }
}

/// Parses a signed 16-bit integer from decimal text: an optional `+` or `-`
/// sign followed by one or more digits, with the value required to fit.
pub fn parse_i16(s: &str) -> (r: Option<i16>)
    ensures
        r == parse_i16_spec(s@),
{
    let len = s.unicode_len();
    if len == 0 {
        return None;
    }
    let c0 = s.get_char(0);
    let negative = c0 == '-';
    let has_sign = c0 == '-' || c0 == '+';
    let start: usize = if has_sign {
        1
    } else {
        0
    };
    let ghost digits = if has_sign {
        s@.drop_first()
    } else {
        s@
    };
    if start == len {
        return None;
    }
    let mut acc: u32 = 0;
    let mut i: usize = start;
    proof {
        assert(digits.take(0) =~= Seq::<char>::empty());
    }
    while i < len
        invariant
            start <= i <= len,
            s@.len() == len,
            has_sign == (s@[0] == '-' || s@[0] == '+'),
            start == if has_sign { 1int } else { 0int },
            digits == if has_sign { s@.drop_first() } else { s@ },
            digits.len() == len - start,
            forall|k: int| 0 <= k < i - start ==> is_digit(digits[k]),
            acc == digits_val(digits.take(i - start)),
            acc <= 32768,
        decreases len - i,
    {
        let c = s.get_char(i);
        let v: u32 = c as u32;
        proof {
            assert(digits[i - start] == s@[i as int]);
        }
        if v < 48 || v > 57 {
            proof {
                assert(!is_digit(digits[i - start]));
                assert(!all_digits(digits));
            }
            return None;
        }
        let d: u32 = v - 48;
        let next: u32 = acc * 10 + d;
        proof {
            assert(digits.take(i - start + 1).drop_last() =~= digits.take(i - start));
            assert(digits.take(i - start + 1).last() == digits[i - start]);
            assert(next == digits_val(digits.take(i - start + 1)));
        }
        if next > 32768 {
            proof {
                if all_digits(digits) {
                    lemma_digits_val_take_mono(digits, i - start + 1);
                    assert(digits_val(digits) > 32768);
                }
            }
            return None;
        }
        acc = next;
        i = i + 1;
    }
    proof {
        assert(digits.take(len - start) =~= digits);
        assert(all_digits(digits));
        assert(acc == digits_val(digits));
    }
    if negative {
        let m: i32 = -(acc as i32);
        Some(m as i16)
    } else {
        if acc >= 32768 {
            None
        } else {
            Some(acc as i16)
        }
    }
}

/// The needle occurs in the haystack starting at position `i`.
pub open spec fn match_at(hay: Seq<char>, needle: Seq<char>, i: int) -> bool {
    &&& 0 <= i
    &&& i + needle.len() <= hay.len()
    &&& hay.subrange(i, i + needle.len()) == needle
}

/// The needle occurs somewhere in the haystack.
pub open spec fn contains_text(hay: Seq<char>, needle: Seq<char>) -> bool {
    exists|i: int| match_at(hay, needle, i)
}

/// Substring search: whether `needle` occurs contiguously in `hay`.
pub fn contains_substr(hay: &str, needle: &str) -> (r: bool)
    ensures
        r == contains_text(hay@, needle@),
{
    let h_len = hay.unicode_len();
    let n_len = needle.unicode_len();
    if n_len > h_len {
        proof {
            assert(forall|i: int| !match_at(hay@, needle@, i));
        }
        return false;
    }
    if n_len == 0 {
        proof {
            assert(hay@.subrange(0, 0) =~= needle@);
            assert(match_at(hay@, needle@, 0));
        }
        return true;
    }
    let mut i: usize = 0;
    while i <= h_len - n_len
        invariant
            hay@.len() == h_len,
            needle@.len() == n_len,
            0 < n_len <= h_len,
            i <= h_len - n_len + 1,
            forall|k: int| 0 <= k < i ==> !match_at(hay@, needle@, k),
        decreases h_len - i,
    {
        let mut j: usize = 0;
        let mut mismatch = false;
        while j < n_len
            invariant
                hay@.len() == h_len,
                needle@.len() == n_len,
                0 < n_len <= h_len,
                i + n_len <= h_len,
                j <= n_len,
                !mismatch ==> forall|l: int| 0 <= l < j ==> hay@[i + l] == needle@[l],
                mismatch ==> !match_at(hay@, needle@, i as int),
            decreases n_len - j,
        {
            let hc = hay.get_char(i + j);
            let nc = needle.get_char(j);
            if hc != nc {
                proof {
                    if match_at(hay@, needle@, i as int) {
                        assert(hay@.subrange(i as int, i + n_len)[j as int] == needle@[
                            j as int
                        ]);
                    }
                }
                mismatch = true;
                j = n_len;
            } else {
                j = j + 1;
            }
        }
        if !mismatch {
            proof {
                assert(hay@.subrange(i as int, i + n_len) =~= needle@);
                assert(match_at(hay@, needle@, i as int));
            }
            return true;
        }
        i = i + 1;
    }
    proof {
        assert forall|k: int| !match_at(hay@, needle@, k) by {
            if 0 <= k && k + needle@.len() <= hay@.len() {
                assert(k < i);
            }
        }
    }
    false
}

} // verus!
