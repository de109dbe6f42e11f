//! Verified conversions between decimal text and integers.
//!
//! Save files carry one scalar per line as plain decimal text. This module
//! defines the decimal grammar as spec functions and provides executable
//! parsing and rendering proved against them, together with the round-trip
//! lemmas the decoder and merge driver rely on.

use vstd::prelude::*;

verus! {

/// Decimal digit.
pub open spec fn is_digit(c: char) -> bool {
    '0' <= c && c <= '9'
}

/// Numeric value of a decimal digit.
pub open spec fn digit_val(c: char) -> int {
    c as int - '0' as int
}

/// Every character of `s` is a decimal digit.
pub open spec fn all_digits(s: Seq<char>) -> bool {
    forall|i: int| 0 <= i < s.len() ==> is_digit(#[trigger] s[i])
}

/// Value of a digit string, most significant digit first.
pub open spec fn digits_val(s: Seq<char>) -> int
    decreases s.len(),
{
    if s.len() == 0 {
        0
    } else {
        digits_val(s.drop_last()) * 10 + digit_val(s.last())
    }
}

/// ASCII whitespace tolerated around numeric text.
pub open spec fn is_space(c: char) -> bool {
    c == ' ' || c == '\t' || c == '\r' || c == '\n'
}

/// `s` with leading whitespace removed.
pub open spec fn trim_front(s: Seq<char>) -> Seq<char>
    decreases s.len(),
{
    if s.len() > 0 && is_space(s[0]) {
        trim_front(s.subrange(1, s.len() as int))
    } else {
        s
    }
}

/// `s` with trailing whitespace removed.
pub open spec fn trim_back(s: Seq<char>) -> Seq<char>
    decreases s.len(),
{
    if s.len() > 0 && is_space(s.last()) {
        trim_back(s.drop_last())
    } else {
        s
    }
}

/// `s` with whitespace removed from both ends.
pub open spec fn spec_trim(s: Seq<char>) -> Seq<char> {
    trim_back(trim_front(s))
}

/// The mathematical value of signed decimal integer text: an optional sign
/// followed by at least one digit. `None` when the text has any other shape.
pub open spec fn int_text_value(s: Seq<char>) -> Option<int> {
    if s.len() == 0 {
        None
    } else {
        let ds = if s[0] == '-' || s[0] == '+' {
            s.subrange(1, s.len() as int)
        } else {
            s
        };
        if ds.len() > 0 && all_digits(ds) {
            if s[0] == '-' {
                Some(-digits_val(ds))
            } else {
                Some(digits_val(ds))
            }
        } else {
            None
        }
    }
}

/// What decimal integer text denotes as an `i32`: the value of the text when
/// it is well-formed and within range, `None` otherwise.
pub open spec fn i32_of_text(s: Seq<char>) -> Option<i32> {
    match int_text_value(s) {
        Some(v) => if i32::MIN <= v <= i32::MAX {
            Some(v as i32)
        } else {
            None
        },
        None => None,
    }
}

/// What decimal integer text denotes as a `u32`; a leading `-` is rejected.
pub open spec fn u32_of_text(s: Seq<char>) -> Option<u32> {
    match int_text_value(s) {
        Some(v) => if s[0] != '-' && 0 <= v <= u32::MAX {
            Some(v as u32)
        } else {
            None
        },
        None => None,
    }
}

/// Canonical decimal rendering of a non-negative number, most significant
/// digit first, no leading zeros (except for `0` itself).
pub open spec fn dec_digits(n: nat) -> Seq<char>
    decreases n,
{
    if n < 10 {
        seq![digit_char(n % 10)]
    } else {
        dec_digits(n / 10).push(digit_char(n % 10))
    }
}

/// The digit character for a value in `0..10`.
pub open spec fn digit_char(n: nat) -> char {
    if n == 0 {
        '0'
    } else if n == 1 {
        '1'
    } else if n == 2 {
        '2'
    } else if n == 3 {
        '3'
    } else if n == 4 {
        '4'
    } else if n == 5 {
        '5'
    } else if n == 6 {
        '6'
    } else if n == 7 {
        '7'
    } else if n == 8 {
        '8'
    } else {
        '9'
    }
}

/// Canonical decimal rendering of a signed number.
pub open spec fn int_text_rend(v: int) -> Seq<char> {
    if v < 0 {
        seq!['-'] + dec_digits((-v) as nat)
    } else {
        dec_digits(v as nat)
    }
}

} // verus!

use vstd::string::StrSliceExecFns;
use vstd::string::StringExecFns;

verus! {

/// Saturation cap used while accumulating digits: any digit string whose
/// value reaches this bound is out of range for every 32-bit field.
pub open spec fn digit_cap() -> int {
    0x1_0000_0000
}

pub(crate) proof fn lemma_digits_val_nonneg(s: Seq<char>)
    requires
        all_digits(s),
    ensures
        digits_val(s) >= 0,
    decreases s.len(),
{
    if s.len() > 0 {
        assert(all_digits(s.drop_last())) by {
            assert(forall|i: int|
                0 <= i < s.len() - 1 ==> is_digit(#[trigger] s.drop_last()[i]));
        }
        lemma_digits_val_nonneg(s.drop_last());
    }
}

/// Reads the digit run `s[start..end]`, saturating at `sat`.
/// `None` when that range is empty or holds a non-digit.
pub(crate) fn parse_digits(s: &str, start: usize, end: usize, sat: u64) -> (r: Option<u64>)
    requires
        start <= end <= s@.len(),
        1 <= sat <= 0x1999_9999_9999_9999,
    ensures
        ({
            let ds = s@.subrange(start as int, end as int);
            match r {
                Some(acc) => ds.len() > 0 && all_digits(ds) && if digits_val(ds)
                    <= sat {
                    acc == digits_val(ds)
                } else {
                    acc == sat
                },
                None => !(ds.len() > 0 && all_digits(ds)),
            }
        }),
{
    let ghost all = s@.subrange(start as int, end as int);
    if start == end {
        return None;
    }
    let mut i = start;
    let mut acc: u64 = 0;
    while i < end
        invariant
            start <= i <= end,
            end <= s@.len(),
            1 <= sat <= 0x1999_9999_9999_9999,
            all == s@.subrange(start as int, end as int),
            all_digits(s@.subrange(start as int, i as int)),
            acc <= sat,
            ({
                let pre = s@.subrange(start as int, i as int);
                if digits_val(pre) <= sat {
                    acc == digits_val(pre)
                } else {
                    acc == sat
                }
            }),
        decreases end - i,
    {
        let ghost pre = s@.subrange(start as int, i as int);
        let c = s.get_char(i);
        let cv = c as u32;
        if cv < 48 || cv > 57 {
            assert(!is_digit(all[i - start]));
            return None;
        }
        let d = (cv - 48) as u64;
        let ghost pre2 = s@.subrange(start as int, i as int + 1);
        proof {
            assert(pre2 =~= pre.push(c));
            assert(pre2.drop_last() =~= pre);
            assert(digits_val(pre2) == digits_val(pre) * 10 + d);
            lemma_digits_val_nonneg(pre);
        }
        if acc == sat {
            // already saturated; the true value only grows
            proof {
                assert(digits_val(pre) * 10 >= digits_val(pre));
            }
        } else {
            let t = acc * 10 + d;
            if t > sat {
                acc = sat;
            } else {
                acc = t;
            }
        }
        i = i + 1;
    }
    proof {
        assert(s@.subrange(start as int, i as int) =~= all);
    }
    Some(acc)
}

/// Parses signed decimal integer text exactly as [`i32_of_text`] describes.
pub fn parse_i32_text(s: &str) -> (r: Option<i32>)
    ensures
        r == i32_of_text(s@),
{
    let n = s.unicode_len();
    if n == 0 {
        return None;
    }
    let c0 = s.get_char(0);
    let neg = c0 == '-';
    let signed = neg || c0 == '+';
    let start: usize = if signed { 1 } else { 0 };
    proof {
        if signed {
            assert(s@.subrange(1, s@.len() as int) =~= if s@[0] == '-' || s@[0] == '+' {
                s@.subrange(1, s@.len() as int)
            } else {
                s@
            });
        } else {
            assert(s@.subrange(0, s@.len() as int) =~= s@);
        }
    }
    match parse_digits(s, start, n, 0x1_0000_0000) {
        None => None,
        Some(acc) => {
            if neg {
                if acc <= 0x8000_0000u64 {
                    Some((-(acc as i64)) as i32)
                } else {
                    None
                }
            } else {
                if acc <= 0x7fff_ffffu64 {
                    Some(acc as i32)
                } else {
                    None
                }
            }
        },
    }
}

/// Parses unsigned decimal integer text exactly as [`u32_of_text`] describes.
pub fn parse_u32_text(s: &str) -> (r: Option<u32>)
    ensures
        r == u32_of_text(s@),
{
    let n = s.unicode_len();
    if n == 0 {
        return None;
    }
    let c0 = s.get_char(0);
    if c0 == '-' {
        return None;
    }
    let signed = c0 == '+';
    let start: usize = if signed { 1 } else { 0 };
    proof {
        if signed {
            assert(s@.subrange(1, s@.len() as int) =~= if s@[0] == '-' || s@[0] == '+' {
                s@.subrange(1, s@.len() as int)
            } else {
                s@
            });
        } else {
            assert(s@.subrange(0, s@.len() as int) =~= s@);
        }
    }
    match parse_digits(s, start, n, 0x1_0000_0000) {
        None => None,
        Some(acc) => {
            if acc <= 0xffff_ffffu64 {
                Some(acc as u32)
            } else {
                None
            }
        },
    }
}

} // verus!

verus! {

/// Removes the whitespace that the save format tolerates around numeric
/// text, exactly as [`spec_trim`] describes.
pub fn trim_str<'a>(s: &'a str) -> (r: &'a str)
    ensures
        r@ == spec_trim(s@),
{
    let n = s.unicode_len();
    let mut start: usize = 0;
    proof {
        assert(s@.subrange(0, n as int) =~= s@);
    }
    while start < n && is_space_char(s.get_char(start))
        invariant
            0 <= start <= n,
            n == s@.len(),
            trim_front(s@) == trim_front(s@.subrange(start as int, n as int)),
        decreases n - start,
    {
        proof {
            let t = s@.subrange(start as int, n as int);
            assert(t[0] == s@[start as int]);
            assert(t.subrange(1, t.len() as int) =~= s@.subrange(
                start as int + 1,
                n as int,
            ));
        }
        start = start + 1;
    }
    proof {
        let t = s@.subrange(start as int, n as int);
        if start < n {
            assert(t[0] == s@[start as int]);
        }
        assert(trim_front(s@) == t);
    }
    let mut end: usize = n;
    while end > start && is_space_char(s.get_char(end - 1))
        invariant
            start <= end <= n,
            n == s@.len(),
            trim_front(s@) == s@.subrange(start as int, n as int),
            trim_back(s@.subrange(start as int, n as int)) == trim_back(
                s@.subrange(start as int, end as int),
            ),
        decreases end,
    {
        proof {
            let t = s@.subrange(start as int, end as int);
            assert(t.last() == s@[end - 1]);
            assert(t.drop_last() =~= s@.subrange(start as int, end as int - 1));
        }
        end = end - 1;
    }
    proof {
        let t = s@.subrange(start as int, end as int);
        if end > start {
            assert(t.last() == s@[end - 1]);
        }
        assert(trim_back(t) == t);
    }
    s.substring_char(start, end)
}

/// Whitespace test matching [`is_space`].
fn is_space_char(c: char) -> (r: bool)
    ensures
        r == is_space(c),
{
    c == ' ' || c == '\t' || c == '\r' || c == '\n'
}

/// Appends one decimal digit character.
pub(crate) fn append_digit(s: &mut String, d: u64)
    requires
        d < 10,
    ensures
        final(s)@ == old(s)@ + seq![digit_char(d as nat)],
{
    proof {
        reveal_strlit("0");
        reveal_strlit("1");
        reveal_strlit("2");
        reveal_strlit("3");
        reveal_strlit("4");
        reveal_strlit("5");
        reveal_strlit("6");
        reveal_strlit("7");
        reveal_strlit("8");
        reveal_strlit("9");
    }
    if d == 0 {
        s.append("0");
        proof { assert(final(s)@ =~= old(s)@ + seq![digit_char(d as nat)]); }
    } else if d == 1 {
        s.append("1");
        proof { assert(final(s)@ =~= old(s)@ + seq![digit_char(d as nat)]); }
    } else if d == 2 {
        s.append("2");
        proof { assert(final(s)@ =~= old(s)@ + seq![digit_char(d as nat)]); }
    } else if d == 3 {
        s.append("3");
        proof { assert(final(s)@ =~= old(s)@ + seq![digit_char(d as nat)]); }
    } else if d == 4 {
        s.append("4");
        proof { assert(final(s)@ =~= old(s)@ + seq![digit_char(d as nat)]); }
    } else if d == 5 {
        s.append("5");
        proof { assert(final(s)@ =~= old(s)@ + seq![digit_char(d as nat)]); }
    } else if d == 6 {
        s.append("6");
        proof { assert(final(s)@ =~= old(s)@ + seq![digit_char(d as nat)]); }
    } else if d == 7 {
        s.append("7");
        proof { assert(final(s)@ =~= old(s)@ + seq![digit_char(d as nat)]); }
    } else if d == 8 {
        s.append("8");
        proof { assert(final(s)@ =~= old(s)@ + seq![digit_char(d as nat)]); }
    } else {
        s.append("9");
        proof { assert(final(s)@ =~= old(s)@ + seq![digit_char(d as nat)]); }
    }
}

/// Appends the canonical decimal rendering of `v`.
pub fn append_dec_u64(s: &mut String, v: u64)
    ensures
        final(s)@ == old(s)@ + dec_digits(v as nat),
    decreases v,
{
    if v >= 10 {
        append_dec_u64(s, v / 10);
        append_digit(s, v % 10);
        proof {
            assert(final(s)@ =~= old(s)@ + dec_digits(v as nat));
        }
    } else {
        append_digit(s, v % 10);
        proof {
            assert(final(s)@ =~= old(s)@ + dec_digits(v as nat));
        }
    }
}

/// Canonical decimal rendering of an unsigned value.
pub fn render_u64(v: u64) -> (r: String)
    ensures
        r@ == dec_digits(v as nat),
{
    let mut s = String::new();
    append_dec_u64(&mut s, v);
    proof {
        assert(s@ =~= dec_digits(v as nat));
    }
    s
}

/// Canonical decimal rendering of a signed value.
pub fn render_int(v: i64) -> (r: String)
    ensures
        r@ == int_text_rend(v as int),
{
    let mut s = String::new();
    if v < 0 {
        proof {
            reveal_strlit("-");
        }
        s.append("-");
        let mag = (-(v as i128)) as u64;
        append_dec_u64(&mut s, mag);
        proof {
            assert(s@ =~= int_text_rend(v as int));
        }
    } else {
        append_dec_u64(&mut s, v as u64);
        proof {
            assert(s@ =~= int_text_rend(v as int));
        }
    }
    s
}

} // verus!

verus! {

proof fn lemma_digit_char_val(n: nat)
    requires
        n < 10,
    ensures
        is_digit(digit_char(n)),
        digit_val(digit_char(n)) == n,
{
}

pub(crate) proof fn lemma_dec_digits(n: nat)
    ensures
        dec_digits(n).len() >= 1,
        all_digits(dec_digits(n)),
        digits_val(dec_digits(n)) == n,
    decreases n,
{
    if n < 10 {
        lemma_digit_char_val(n % 10);
        let d = dec_digits(n);
        assert(d =~= seq![digit_char(n % 10)]);
        assert(d.len() == 1);
        assert(d.last() == digit_char(n % 10));
        assert(d.drop_last() =~= Seq::<char>::empty());
        assert(digits_val(Seq::<char>::empty()) == 0);
        assert(digits_val(d) == digits_val(d.drop_last()) * 10 + digit_val(d.last()));
        assert(digits_val(d) == digit_val(digit_char(n % 10)));
    } else {
        lemma_dec_digits(n / 10);
        lemma_digit_char_val(n % 10);
        let h = dec_digits(n / 10);
        let d = dec_digits(n);
        assert(d == h.push(digit_char(n % 10)));
        assert(d.drop_last() =~= h);
        assert(d.last() == digit_char(n % 10));
        assert(digits_val(d) == digits_val(h) * 10 + digit_val(digit_char(n % 10)));
        assert(forall|i: int| 0 <= i < d.len() ==> is_digit(#[trigger] d[i])) by {
            assert(forall|i: int| 0 <= i < h.len() ==> d[i] == #[trigger] h[i]);
        }
        assert(n / 10 * 10 + n % 10 == n) by {
            vstd::arithmetic::div_mod::lemma_fundamental_div_mod(n as int, 10);
        }
    }
}

/// The canonical rendering of an integer parses back to the same value.
pub proof fn lemma_int_rend_roundtrip(v: int)
    ensures
        int_text_value(int_text_rend(v)) == Some(v),
        i32::MIN <= v <= i32::MAX ==> i32_of_text(int_text_rend(v)) == Some(v as i32),
        0 <= v <= u32::MAX ==> u32_of_text(int_text_rend(v)) == Some(v as u32),
{
    if v < 0 {
        lemma_dec_digits((-v) as nat);
        let s = int_text_rend(v);
        let ds = dec_digits((-v) as nat);
        assert(s[0] == '-');
        assert(s.subrange(1, s.len() as int) =~= ds);
        assert(int_text_value(s) == Some(-digits_val(ds)));
    } else {
        lemma_dec_digits(v as nat);
        let s = int_text_rend(v);
        assert(is_digit(s[0]));
        assert(s[0] != '-' && s[0] != '+');
        assert(int_text_value(s) == Some(digits_val(s)));
    }
}

} // verus!
