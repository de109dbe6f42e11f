//! Exact decimal fixed-point values for the floating-point save fields.
//!
//! Several save fields (the tension counters, the flag table, per-item
//! element amounts, the play-time frame count) hold fractional decimal
//! values. The library models such a value exactly as `mant / 10^scale`
//! with an integer mantissa: decimal text is decoded without rounding,
//! comparisons are exact rational comparisons, and rendering reproduces the
//! decoded digits. A type invariant keeps every value canonical (no trailing
//! zero in the fraction) and small enough for comparisons to be computed
//! with 128-bit arithmetic.

use vstd::prelude::*;
use vstd::std_specs::cmp::PartialEqSpec;
use vstd::std_specs::cmp::PartialOrdSpec;
use vstd::string::StrSliceExecFns;
use vstd::string::StringExecFns;
use crate::numtext::all_digits;
use crate::numtext::dec_digits;
use crate::numtext::digit_char;
use crate::numtext::digit_val;
use crate::numtext::digits_val;
use crate::numtext::int_text_rend;
use crate::numtext::is_digit;
use crate::numtext::parse_digits;

verus! {

/// `10^n`.
pub open spec fn pow10(n: nat) -> int
    decreases n,
{
    if n == 0 {
        1
    } else {
        10 * pow10((n - 1) as nat)
    }
}

/// Largest mantissa magnitude a [`FloatVal`] may carry: `10^18`.
pub open spec fn float_mant_cap() -> int {
    1_000_000_000_000_000_000
}

/// Largest fraction length a [`FloatVal`] may carry.
pub open spec fn float_scale_cap() -> nat {
    18
}

/// An exact decimal value `mant / 10^scale`.
#[derive(Clone, Copy, Debug)]
pub struct FloatVal {
    mant: i64,
    scale: u32,
}

impl FloatVal {
    /// Signed mantissa.
    pub closed spec fn smant(self) -> int {
        self.mant as int
    }

    /// Number of decimal fraction digits.
    pub closed spec fn sscale(self) -> nat {
        self.scale as nat
    }

    /// Canonical and in range: the mantissa magnitude stays within
    /// [`float_mant_cap`], the fraction within [`float_scale_cap`], and a
    /// non-empty fraction never ends in a zero digit.
    pub open spec fn valid(self) -> bool {
        &&& -float_mant_cap() <= self.smant() <= float_mant_cap()
        &&& self.sscale() <= float_scale_cap()
        &&& self.sscale() > 0 ==> self.smant() % 10 != 0
    }

    #[verifier::type_invariant]
    spec fn type_inv(self) -> bool {
        self.valid()
    }

    /// The value zero, rendered as a bare `0`.
    pub fn zero() -> (r: FloatVal)
        ensures
            r.smant() == 0,
            r.sscale() == 0,
            r == spec_float_zero(),
    {
        FloatVal { mant: 0, scale: 0 }
    }

    /// Builds the value `mant / 10^scale` from already canonical parts.
    pub fn new(mant: i64, scale: u32) -> (r: FloatVal)
        requires
            -float_mant_cap() <= mant <= float_mant_cap(),
            scale <= float_scale_cap(),
            scale > 0 ==> mant % 10 != 0,
        ensures
            r.smant() == mant,
            r.sscale() == scale,
    {
        FloatVal { mant, scale }
    }

    /// Signed mantissa, for unverified display code.
    pub fn mant_part(&self) -> (r: i64)
        ensures
            r == self.smant(),
    {
        self.mant
    }

    /// Fraction length, for unverified display code.
    pub fn scale_part(&self) -> (r: u32)
        ensures
            r == self.sscale(),
    {
        self.scale
    }
}

/// The two values denote the same rational number.
pub open spec fn float_num_eq(a: FloatVal, b: FloatVal) -> bool {
    a.smant() * pow10(b.sscale()) == b.smant() * pow10(a.sscale())
}

/// `a` denotes a strictly smaller rational number than `b`.
pub open spec fn float_num_lt(a: FloatVal, b: FloatVal) -> bool {
    a.smant() * pow10(b.sscale()) < b.smant() * pow10(a.sscale())
}

proof fn lemma_pow10_pos(n: nat)
    ensures
        pow10(n) >= 1,
    decreases n,
{
    if n > 0 {
        lemma_pow10_pos((n - 1) as nat);
    }
}

proof fn lemma_pow10_mono(a: nat, b: nat)
    requires
        a <= b,
    ensures
        pow10(a) <= pow10(b),
    decreases b,
{
    if a < b {
        lemma_pow10_mono(a, (b - 1) as nat);
        lemma_pow10_pos((b - 1) as nat);
    }
}

proof fn lemma_pow10_bounds(n: nat)
    requires
        n <= float_scale_cap(),
    ensures
        1 <= pow10(n) <= float_mant_cap(),
{
    lemma_pow10_pos(n);
    lemma_pow10_mono(n, 18);
    lemma_pow10_18_values();
}

proof fn lemma_pow10_18_values()
    ensures
        pow10(17) == 100_000_000_000_000_000,
        pow10(18) == 1_000_000_000_000_000_000,
    decreases 0nat,
{
    reveal_with_fuel(pow10, 20);
}

/// Cross-multiplied mantissas stay well inside the 128-bit range.
proof fn lemma_cross_bound(m: int, s: nat)
    requires
        -float_mant_cap() <= m <= float_mant_cap(),
        s <= float_scale_cap(),
    ensures
        -(0x7fff_ffff_ffff_ffff_ffff_ffff_ffff_ffffint) <= m * pow10(s)
            <= 0x7fff_ffff_ffff_ffff_ffff_ffff_ffff_ffff,
{
    lemma_pow10_bounds(s);
    assert(-(0x7fff_ffff_ffff_ffff_ffff_ffff_ffff_ffffint) <= m * pow10(s)
        <= 0x7fff_ffff_ffff_ffff_ffff_ffff_ffff_ffff) by (nonlinear_arith)
        requires
            -float_mant_cap() <= m <= float_mant_cap(),
            1 <= pow10(s) <= float_mant_cap(),
    ;
}

/// Exact 10-power, for the comparison arithmetic.
fn pow10_i128(n: u32) -> (r: i128)
    requires
        n <= float_scale_cap(),
    ensures
        r == pow10(n as nat),
{
    let mut i: u32 = 0;
    let mut acc: i128 = 1;
    while i < n
        invariant
            0 <= i <= n,
            n <= float_scale_cap(),
            acc == pow10(i as nat),
        decreases n - i,
    {
        proof {
            lemma_pow10_bounds(i as nat);
            lemma_pow10_bounds((i + 1) as nat);
        }
        acc = acc * 10;
        i = i + 1;
    }
    acc
}

impl vstd::std_specs::cmp::PartialEqSpecImpl for FloatVal {
    open spec fn obeys_eq_spec() -> bool {
        true
    }

    open spec fn eq_spec(&self, other: &FloatVal) -> bool {
        float_num_eq(*self, *other)
    }
}

impl PartialEq for FloatVal {
    fn eq(&self, other: &FloatVal) -> (r: bool) {
        proof {
            use_type_invariant(self);
            use_type_invariant(other);
            lemma_cross_bound(self.smant(), other.sscale());
            lemma_cross_bound(other.smant(), self.sscale());
        }
        let lhs = (self.mant as i128) * pow10_i128(other.scale);
        let rhs = (other.mant as i128) * pow10_i128(self.scale);
        proof {
            assert(lhs == self.smant() * pow10(other.sscale()));
            assert(rhs == other.smant() * pow10(self.sscale()));
            assert((lhs == rhs) == float_num_eq(*self, *other));
        }
        lhs == rhs
    }
}

impl vstd::std_specs::cmp::PartialOrdSpecImpl for FloatVal {
    open spec fn obeys_partial_cmp_spec() -> bool {
        true
    }

    open spec fn partial_cmp_spec(&self, other: &FloatVal) -> Option<core::cmp::Ordering> {
        if float_num_lt(*self, *other) {
            Some(core::cmp::Ordering::Less)
        } else if float_num_eq(*self, *other) {
            Some(core::cmp::Ordering::Equal)
        } else {
            Some(core::cmp::Ordering::Greater)
        }
    }
}

impl PartialOrd for FloatVal {
    fn partial_cmp(&self, other: &FloatVal) -> (r: Option<core::cmp::Ordering>) {
        proof {
            use_type_invariant(self);
            use_type_invariant(other);
            lemma_cross_bound(self.smant(), other.sscale());
            lemma_cross_bound(other.smant(), self.sscale());
        }
        let lhs = (self.mant as i128) * pow10_i128(other.scale);
        let rhs = (other.mant as i128) * pow10_i128(self.scale);
        proof {
            assert(lhs == self.smant() * pow10(other.sscale()));
            assert(rhs == other.smant() * pow10(self.sscale()));
            assert((lhs < rhs) == float_num_lt(*self, *other));
            assert((lhs == rhs) == float_num_eq(*self, *other));
        }
        if lhs < rhs {
            Some(core::cmp::Ordering::Less)
        } else if lhs == rhs {
            Some(core::cmp::Ordering::Equal)
        } else {
            Some(core::cmp::Ordering::Greater)
        }
    }
}

} // verus!

verus! {

/// `s` with trailing `0` characters removed.
pub open spec fn strip_zeros(s: Seq<char>) -> Seq<char>
    decreases s.len(),
{
    if s.len() > 0 && s.last() == '0' {
        strip_zeros(s.drop_last())
    } else {
        s
    }
}

/// Index of the first `.` in `b`, or `b.len()` when there is none.
pub open spec fn dot_index(b: Seq<char>) -> int
    decreases b.len(),
{
    if b.len() == 0 {
        0
    } else if b[0] == '.' {
        0
    } else {
        1 + dot_index(b.subrange(1, b.len() as int))
    }
}

/// What decimal fraction text denotes: an optional sign, integer digits, and
/// an optional `.` followed by fraction digits, with at least one digit in
/// all. The fraction is taken without its trailing zeros; text whose
/// mantissa or fraction length exceeds what [`FloatVal`] carries is rejected.
pub closed spec fn float_of_text(s: Seq<char>) -> Option<FloatVal> {
    if s.len() == 0 {
        None
    } else {
        let neg = s[0] == '-';
        let body = if s[0] == '-' || s[0] == '+' {
            s.subrange(1, s.len() as int)
        } else {
            s
        };
        let k = dot_index(body);
        let ds1 = body.subrange(0, k);
        let ds2 = if k == body.len() {
            Seq::<char>::empty()
        } else {
            body.subrange(k + 1, body.len() as int)
        };
        let fs = strip_zeros(ds2);
        let m = digits_val(ds1) * pow10(fs.len()) + digits_val(fs);
        if all_digits(ds1) && all_digits(ds2) && ds1.len() + ds2.len() > 0 && fs.len()
            <= float_scale_cap() && m <= float_mant_cap() {
            Some(
                FloatVal {
                    mant: (if neg {
                        -m
                    } else {
                        m
                    }) as i64,
                    scale: fs.len() as u32,
                },
            )
        } else {
            None
        }
    }
}

proof fn lemma_strip_zeros_props(s: Seq<char>)
    ensures
        strip_zeros(s).len() <= s.len(),
        forall|i: int| 0 <= i < strip_zeros(s).len() ==> strip_zeros(s)[i] == s[i],
        strip_zeros(s).len() > 0 ==> strip_zeros(s).last() != '0',
    decreases s.len(),
{
    if s.len() > 0 && s.last() == '0' {
        lemma_strip_zeros_props(s.drop_last());
        assert(forall|i: int|
            0 <= i < s.len() - 1 ==> s.drop_last()[i] == #[trigger] s[i]);
    }
}

proof fn lemma_digits_val_mod10(s: Seq<char>)
    requires
        s.len() > 0,
        all_digits(s),
    ensures
        digits_val(s) % 10 == digit_val(s.last()),
{
    crate::numtext::lemma_digits_val_nonneg(s.drop_last());
    assert(all_digits(s.drop_last())) by {
        assert(forall|i: int|
            0 <= i < s.len() - 1 ==> is_digit(#[trigger] s.drop_last()[i]));
    }
    let a = digits_val(s.drop_last());
    let d = digit_val(s.last());
    assert(is_digit(s.last()));
    assert(0 <= d < 10);
    vstd::arithmetic::div_mod::lemma_fundamental_div_mod_converse(a * 10 + d, 10, a, d);
}

proof fn lemma_neg_mod10(m: int)
    requires
        m >= 0,
        m % 10 != 0,
    ensures
        (-m) % 10 != 0,
{
    let q = m / 10;
    let r = m % 10;
    vstd::arithmetic::div_mod::lemma_fundamental_div_mod(m, 10);
    assert(-m == (-q - 1) * 10 + (10 - r)) by (nonlinear_arith)
        requires
            m == q * 10 + r,
    ;
    vstd::arithmetic::div_mod::lemma_fundamental_div_mod_converse(-m, 10, -q - 1, 10 - r);
}

/// Parses decimal fraction text exactly as [`float_of_text`] describes.
#[verifier::rlimit(100)]
pub fn parse_float_text(s: &str) -> (r: Option<FloatVal>)
    ensures
        r == float_of_text(s@),
{
    let sat: u64 = 1_500_000_000_000_000_000;
    let cap: u64 = 1_000_000_000_000_000_000;
    let n = s.unicode_len();
    if n == 0 {
        return None;
    }
    let c0 = s.get_char(0);
    let neg = c0 == '-';
    let signed = neg || c0 == '+';
    let start: usize = if signed {
        1
    } else {
        0
    };
    let ghost body = if s@[0] == '-' || s@[0] == '+' {
        s@.subrange(1, n as int)
    } else {
        s@
    };
    proof {
        assert(body =~= s@.subrange(start as int, n as int));
    }
    // find the first dot of the body
    let mut dot = start;
    while dot < n && s.get_char(dot) != '.'
        invariant
            start <= dot <= n,
            n == s@.len(),
            body == s@.subrange(start as int, n as int),
            dot_index(body) == dot - start + dot_index(s@.subrange(dot as int, n as int)),
        decreases n - dot,
    {
        proof {
            let t = s@.subrange(dot as int, n as int);
            assert(t[0] == s@[dot as int]);
            assert(t.subrange(1, t.len() as int) =~= s@.subrange(dot as int + 1, n as int));
        }
        dot = dot + 1;
    }
    proof {
        let t = s@.subrange(dot as int, n as int);
        if dot < n {
            assert(t[0] == s@[dot as int]);
        }
        assert(dot_index(body) == dot - start);
    }
    let ghost k = dot_index(body);
    let ghost ds1 = body.subrange(0, k);
    let ghost ds2 = if k == body.len() {
        Seq::<char>::empty()
    } else {
        body.subrange(k + 1, body.len() as int)
    };
    proof {
        assert(ds1 =~= s@.subrange(start as int, dot as int));
        if dot < n {
            assert(ds2 =~= s@.subrange(dot as int + 1, n as int));
        }
    }
    if dot == n {
        // no fraction separator
        match parse_digits(s, start, n, sat) {
            None => None,
            Some(acc) => {
                proof {
                    assert(strip_zeros(Seq::<char>::empty()) =~= Seq::<char>::empty());
                }
                let r = combine_mantissa(neg, acc, 0, 0, Ghost(ds1), Ghost(ds2));
                proof {
                    assert(pow10(0) == 1);
                    assert(r == float_of_text(s@));
                }
                r
            },
        }
    } else {
        // digits before the dot (the run may be empty)
        let acc1: u64 = if start == dot {
            0
        } else {
            match parse_digits(s, start, dot, sat) {
                None => {
                    return None;
                },
                Some(a) => a,
            }
        };
        // the fraction digits, checked in full
        let acc2full: u64 = if dot + 1 == n {
            0
        } else {
            match parse_digits(s, dot + 1, n, sat) {
                None => {
                    return None;
                },
                Some(a) => a,
            }
        };
        if start == dot && dot + 1 == n {
            // a bare separator with no digits at all
            return None;
        }
        // drop trailing zeros of the fraction
        let fstart = dot + 1;
        let mut fe = n;
        while fe > fstart && s.get_char(fe - 1) == '0'
            invariant
                fstart <= fe <= n,
                n == s@.len(),
                fstart == dot + 1 <= n,
                strip_zeros(ds2) == strip_zeros(s@.subrange(fstart as int, fe as int)),
                ds2 == s@.subrange(fstart as int, n as int),
            decreases fe,
        {
            proof {
                let t = s@.subrange(fstart as int, fe as int);
                assert(t.last() == s@[fe - 1]);
                assert(t.drop_last() =~= s@.subrange(fstart as int, fe as int - 1));
            }
            fe = fe - 1;
        }
        let ghost fs = strip_zeros(ds2);
        proof {
            let t = s@.subrange(fstart as int, fe as int);
            if fe > fstart {
                assert(t.last() == s@[fe - 1]);
            }
            assert(strip_zeros(t) == t);
            assert(fs == t);
        }
        let fs_len = fe - fstart;
        if fs_len > 18 {
            return None;
        }
        // value of the stripped fraction
        let acc2: u64 = if fe == fstart {
            0
        } else {
            proof {
                lemma_strip_zeros_props(ds2);
                assert(all_digits(fs)) by {
                    assert(forall|i: int| 0 <= i < fs.len() ==> is_digit(#[trigger] fs[i]));
                }
            }
            match parse_digits(s, fstart, fe, sat) {
                None => {
                    proof {
                        assert(false);
                    }
                    return None;
                },
                Some(a) => a,
            }
        };
        proof {
            lemma_strip_zeros_props(ds2);
            if fs.len() > 0 {
                assert(all_digits(fs)) by {
                    assert(forall|i: int| 0 <= i < fs.len() ==> is_digit(#[trigger] fs[i]));
                }
            }
        }
        let r = combine_mantissa(neg, acc1, acc2, fs_len, Ghost(ds1), Ghost(fs));
        proof {
            assert(r == float_of_text(s@));
        }
        r
    }
}

/// Assembles the mantissa from the saturating accumulators of the integer
/// and fraction digit runs, deciding the cap check exactly as
/// [`float_of_text`] does.
fn combine_mantissa(
    neg: bool,
    acc1: u64,
    acc2: u64,
    fs_len: usize,
    Ghost(ds1): Ghost<Seq<char>>,
    Ghost(fs): Ghost<Seq<char>>,
) -> (r: Option<FloatVal>)
    requires
        fs_len == fs.len() <= 18,
        all_digits(ds1),
        all_digits(fs),
        fs.len() > 0 ==> fs.last() != '0',
        acc1 <= 1_500_000_000_000_000_000u64,
        acc2 <= 1_500_000_000_000_000_000u64,
        if digits_val(ds1) <= 1_500_000_000_000_000_000 {
            acc1 == digits_val(ds1)
        } else {
            acc1 == 1_500_000_000_000_000_000
        },
        if digits_val(fs) <= 1_500_000_000_000_000_000 {
            acc2 == digits_val(fs)
        } else {
            acc2 == 1_500_000_000_000_000_000
        },
    ensures
        r == ({
            let m = digits_val(ds1) * pow10(fs.len()) + digits_val(fs);
            if m <= float_mant_cap() {
                Some(
                    FloatVal {
                        mant: (if neg {
                            -m
                        } else {
                            m
                        }) as i64,
                        scale: fs.len() as u32,
                    },
                )
            } else {
                None::<FloatVal>
            }
        }),
{
    let ghost sat: u64 = 1_500_000_000_000_000_000;
    let cap: u64 = 1_000_000_000_000_000_000;
    let p = pow10_i128(fs_len as u32);
    let ghost m = digits_val(ds1) * pow10(fs.len()) + digits_val(fs);
    proof {
        crate::numtext::lemma_digits_val_nonneg(ds1);
        crate::numtext::lemma_digits_val_nonneg(fs);
        lemma_pow10_bounds(fs.len());
        assert((acc1 as i128) * p <= 1_500_000_000_000_000_000i128
            * 1_000_000_000_000_000_000i128 && (acc1 as i128) * p >= 0) by (nonlinear_arith)
            requires
                0 <= acc1 <= 1_500_000_000_000_000_000u64,
                1 <= p <= 1_000_000_000_000_000_000i128,
        ;
    }
    let m128: i128 = (acc1 as i128) * p + (acc2 as i128);
    proof {
        // the saturated cases both exceed the cap, on each side
        if digits_val(ds1) > sat || digits_val(fs) > sat {
            assert(m > float_mant_cap() && m128 > cap) by (nonlinear_arith)
                requires
                    digits_val(ds1) > sat ==> acc1 == sat,
                    digits_val(fs) > sat ==> acc2 == sat,
                    digits_val(ds1) > sat || digits_val(fs) > sat,
                    acc1 <= sat,
                    acc2 <= sat,
                    digits_val(ds1) >= 0,
                    digits_val(fs) >= 0,
                    1 <= p <= 1_000_000_000_000_000_000i128,
                    p == pow10(fs.len()),
                    sat == 1_500_000_000_000_000_000u64,
                    cap == 1_000_000_000_000_000_000u64,
                    m == digits_val(ds1) * pow10(fs.len()) + digits_val(fs),
                    m128 == (acc1 as i128) * p + (acc2 as i128),
            ;
        } else {
            assert(m == m128);
        }
    }
    if m128 > cap as i128 {
        return None;
    }
    let mant = if neg {
        -(m128 as i64)
    } else {
        m128 as i64
    };
    proof {
        // canonical form: a non-empty fraction keeps its last digit non-zero
        if fs.len() > 0 {
            lemma_digits_val_mod10(fs);
            assert(fs.last() != '0');
            assert(digit_val(fs.last()) != 0);
            let l = fs.len();
            assert(pow10(l) == 10 * pow10((l - 1) as nat));
            vstd::arithmetic::div_mod::lemma_mod_multiples_vanish(
                digits_val(ds1) * pow10((l - 1) as nat),
                digits_val(fs),
                10,
            );
            assert(digits_val(ds1) * pow10(l) == 10 * (digits_val(ds1) * pow10(
                (l - 1) as nat,
            ))) by (nonlinear_arith)
                requires
                    pow10(l) == 10 * pow10((l - 1) as nat),
            ;
            assert(m % 10 == digits_val(fs) % 10);
            assert(m % 10 != 0);
            if neg {
                lemma_neg_mod10(m);
            }
        }
    }
    Some(FloatVal { mant, scale: fs_len as u32 })
}

} // verus!

verus! {

/// Exactly `k` decimal digits of `m`, zero padded at the front.
pub open spec fn fixed_digits(m: nat, k: nat) -> Seq<char>
    decreases k,
{
    if k == 0 {
        Seq::<char>::empty()
    } else {
        fixed_digits(m / 10, (k - 1) as nat).push(digit_char(m % 10))
    }
}

/// Canonical text rendering of a value: the sign, the integer digits and,
/// for a non-zero scale, a `.` followed by exactly `scale` fraction digits.
pub open spec fn float_text_rend(v: FloatVal) -> Seq<char> {
    if v.sscale() == 0 {
        int_text_rend(v.smant())
    } else {
        let mag = if v.smant() < 0 {
            -v.smant()
        } else {
            v.smant()
        };
        let p = pow10(v.sscale());
        let digits = dec_digits((mag / p) as nat) + seq!['.'] + fixed_digits(
            (mag % p) as nat,
            v.sscale(),
        );
        if v.smant() < 0 {
            seq!['-'] + digits
        } else {
            digits
        }
    }
}

proof fn lemma_fixed_digits(m: nat, k: nat)
    requires
        m < pow10(k),
    ensures
        fixed_digits(m, k).len() == k,
        all_digits(fixed_digits(m, k)),
        digits_val(fixed_digits(m, k)) == m,
    decreases k,
{
    if k > 0 {
        assert(m / 10 < pow10((k - 1) as nat)) by (nonlinear_arith)
            requires
                m < pow10(k),
                pow10(k) == 10 * pow10((k - 1) as nat),
                m >= 0,
        ;
        lemma_fixed_digits(m / 10, (k - 1) as nat);
        let f = fixed_digits(m, k);
        let h = fixed_digits(m / 10, (k - 1) as nat);
        assert(f.drop_last() =~= h);
        assert(f.last() == digit_char(m % 10));
        assert(digit_val(digit_char(m % 10)) == m % 10 && is_digit(digit_char(m % 10))) by {
            lemma_digit_char_val10(m % 10);
        }
        assert(digits_val(f) == digits_val(h) * 10 + m % 10);
        assert((m / 10) * 10 + m % 10 == m) by {
            vstd::arithmetic::div_mod::lemma_fundamental_div_mod(m as int, 10);
        }
        assert(forall|i: int| 0 <= i < f.len() ==> is_digit(#[trigger] f[i])) by {
            assert(forall|i: int| 0 <= i < h.len() ==> f[i] == #[trigger] h[i]);
        }
    }
}

proof fn lemma_digit_char_val10(n: nat)
    requires
        n < 10,
    ensures
        is_digit(digit_char(n)),
        digit_val(digit_char(n)) == n,
        n != 0 ==> digit_char(n) != '0',
{
}

proof fn lemma_dot_index_digits_then(a: Seq<char>, rest: Seq<char>)
    requires
        all_digits(a),
        rest.len() > 0,
        rest[0] == '.',
    ensures
        dot_index(a + rest) == a.len(),
    decreases a.len(),
{
    let w = a + rest;
    if a.len() == 0 {
        assert(w =~= rest);
    } else {
        assert(w[0] == a[0]);
        assert(is_digit(a[0]));
        assert(w[0] != '.');
        let t = a.subrange(1, a.len() as int);
        assert(all_digits(t));
        lemma_dot_index_digits_then(t, rest);
        assert(w.subrange(1, w.len() as int) =~= t + rest);
    }
}

proof fn lemma_dot_index_all_digits(a: Seq<char>)
    requires
        all_digits(a),
    ensures
        dot_index(a) == a.len(),
    decreases a.len(),
{
    if a.len() > 0 {
        assert(is_digit(a[0]));
        assert(a[0] != '.');
        let t = a.subrange(1, a.len() as int);
        assert(all_digits(t));
        lemma_dot_index_all_digits(t);
    }
}

/// Appends exactly `k` decimal digits of `m`, zero padded.
fn append_fixed_digits(s: &mut String, m: u64, k: u32)
    ensures
        final(s)@ == old(s)@ + fixed_digits(m as nat, k as nat),
    decreases k,
{
    if k > 0 {
        append_fixed_digits(s, m / 10, k - 1);
        crate::numtext::append_digit(s, m % 10);
        proof {
            assert(final(s)@ =~= old(s)@ + fixed_digits(m as nat, k as nat));
        }
    } else {
        proof {
            assert(final(s)@ =~= old(s)@ + fixed_digits(m as nat, 0));
        }
    }
}

/// Renders a value exactly as [`float_text_rend`] describes.
pub fn render_float(v: &FloatVal) -> (r: String)
    ensures
        r@ == float_text_rend(*v),
{
    proof {
        use_type_invariant(v);
    }
    if v.scale == 0 {
        return crate::numtext::render_int(v.mant);
    }
    let mut s = String::new();
    if v.mant < 0 {
        proof {
            reveal_strlit("-");
        }
        s.append("-");
    }
    let mag: u64 = if v.mant < 0 {
        (-(v.mant as i128)) as u64
    } else {
        v.mant as u64
    };
    proof {
        lemma_pow10_bounds(v.sscale());
    }
    let p128 = pow10_i128(v.scale);
    let p = p128 as u64;
    let ip = mag / p;
    let fp = mag % p;
    append_dec_u64_local(&mut s, ip);
    proof {
        reveal_strlit(".");
    }
    s.append(".");
    append_fixed_digits(&mut s, fp, v.scale);
    proof {
        assert(s@ =~= float_text_rend(*v));
    }
    s
}

/// Appends the canonical decimal rendering of `m`.
fn append_dec_u64_local(s: &mut String, m: u64)
    ensures
        final(s)@ == old(s)@ + dec_digits(m as nat),
{
    crate::numtext::append_dec_u64(s, m)
}

} // verus!

verus! {

proof fn lemma_mag_mod10(mant: int)
    requires
        mant % 10 != 0,
    ensures
        (if mant < 0 {
            -mant
        } else {
            mant
        }) % 10 != 0,
{
    let mag = if mant < 0 {
        -mant
    } else {
        mant
    };
    if mag % 10 == 0 {
        let q = mag / 10;
        vstd::arithmetic::div_mod::lemma_fundamental_div_mod(mag, 10);
        if mant < 0 {
            vstd::arithmetic::div_mod::lemma_fundamental_div_mod_converse(mant, 10, -q, 0);
        }
        assert(false);
    }
}

/// Rendering a canonical value and parsing the text returns the value
/// unchanged.
#[verifier::rlimit(80)]
pub proof fn lemma_float_roundtrip(v: FloatVal)
    requires
        v.valid(),
    ensures
        float_of_text(float_text_rend(v)) == Some(v),
{
    let s = float_text_rend(v);
    let mant = v.smant();
    let mag = if mant < 0 {
        -mant
    } else {
        mant
    };
    let sc = v.sscale();
    // the digits of the rendering, without the sign
    let body0: Seq<char> = if sc == 0 {
        dec_digits(mag as nat)
    } else {
        dec_digits(((mag / pow10(sc)) as nat)) + seq!['.'] + fixed_digits(
            (mag % pow10(sc)) as nat,
            sc,
        )
    };
    let p = pow10(sc);
    let ip = mag / p;
    let fp = mag % p;
    lemma_pow10_bounds(sc);
    assert(0 <= ip && 0 <= fp < p) by {
        vstd::arithmetic::div_mod::lemma_fundamental_div_mod(mag, p);
        vstd::arithmetic::div_mod::lemma_remainder_upper(mag, p);
        vstd::arithmetic::div_mod::lemma_remainder_lower(mag, p);
        vstd::arithmetic::div_mod::lemma_div_pos_is_pos(mag, p);
    }
    crate::numtext::lemma_dec_digits(mag as nat);
    crate::numtext::lemma_dec_digits(ip as nat);
    if sc > 0 {
        lemma_fixed_digits(fp as nat, sc);
    }
    // the first character of the digits is a digit, so it is not a sign
    assert(is_digit(body0[0])) by {
        if sc > 0 {
            assert(body0[0] == dec_digits(ip as nat)[0]);
        }
    }
    assert(body0[0] != '-' && body0[0] != '+');
    assert(s == if mant < 0 {
        seq!['-'] + body0
    } else {
        body0
    });
    assert(s.len() > 0);
    // the spec splits off the sign and finds the dot
    let body = if s[0] == '-' || s[0] == '+' {
        s.subrange(1, s.len() as int)
    } else {
        s
    };
    if mant < 0 {
        assert(s[0] == '-');
        assert(body =~= body0);
    } else {
        assert(s[0] == body0[0]);
        assert(body =~= body0);
    }
    let k = dot_index(body);
    let ds1 = body.subrange(0, k);
    let ds2 = if k == body.len() {
        Seq::<char>::empty()
    } else {
        body.subrange(k + 1, body.len() as int)
    };
    let fs = strip_zeros(ds2);
    if sc == 0 {
        lemma_dot_index_all_digits(body);
        assert(k == body.len());
        assert(ds1 =~= body);
        assert(digits_val(ds1) == mag);
        assert(fs =~= Seq::<char>::empty());
        assert(fs.len() == 0);
        assert(digits_val(fs) == 0);
        assert(pow10(fs.len()) == 1);
        assert(digits_val(ds1) * pow10(fs.len()) == mag) by (nonlinear_arith)
            requires
                digits_val(ds1) == mag,
                pow10(fs.len()) == 1,
        ;
        assert(digits_val(ds1) * pow10(fs.len()) + digits_val(fs) == mag);
    } else {
        let dd = dec_digits(ip as nat);
        let ff = fixed_digits(fp as nat, sc);
        assert((seq!['.'] + ff)[0] == '.');
        lemma_dot_index_digits_then(dd, seq!['.'] + ff);
        assert(body =~= dd + (seq!['.'] + ff));
        assert(k == dd.len());
        assert(ds1 =~= dd);
        assert(k < body.len());
        assert(ds2 =~= ff);
        // the last fraction digit is not zero, so stripping changes nothing
        assert(fp % 10 == mag % 10) by {
            let z = pow10((sc - 1) as nat);
            lemma_pow10_bounds((sc - 1) as nat);
            assert(p == 10 * z);
            vstd::arithmetic::div_mod::lemma_mod_breakdown(mag, 10, z);
            vstd::arithmetic::div_mod::lemma_mod_multiples_vanish(
                (mag / 10) % z,
                mag % 10,
                10,
            );
            vstd::arithmetic::div_mod::lemma_remainder_upper(mag, 10);
            vstd::arithmetic::div_mod::lemma_remainder_lower(mag, 10);
            vstd::arithmetic::div_mod::lemma_small_mod((mag % 10) as nat, 10);
        }
        assert(mag % 10 != 0) by {
            lemma_mag_mod10(mant);
        }
        assert(ff.len() == sc > 0);
        assert(ff.last() == digit_char((fp as nat) % 10));
        assert(ff.last() != '0') by {
            lemma_digit_char_val10((fp as nat) % 10);
        }
        assert(fs == ds2);
        assert(fs.len() == sc);
        assert(digits_val(ds1) == ip && digits_val(fs) == fp);
        assert(digits_val(ds1) * pow10(fs.len()) + digits_val(fs) == mag) by {
            vstd::arithmetic::div_mod::lemma_fundamental_div_mod(mag, p);
        }
    }
    let m = digits_val(ds1) * pow10(fs.len()) + digits_val(fs);
    assert(m == mag);
    assert(all_digits(ds1) && all_digits(ds2));
    assert(ds1.len() + ds2.len() > 0);
    assert(fs.len() <= float_scale_cap());
    assert(m <= float_mant_cap());
    let built = FloatVal {
        mant: (if mant < 0 {
            -m
        } else {
            m
        }) as i64,
        scale: fs.len() as u32,
    };
    assert(float_of_text(s) == Some(built));
    assert(built == v);
}

/// Whole seconds denoted by a frame count recorded at 30 frames per second.
pub open spec fn spec_play_secs(v: FloatVal) -> Option<int> {
    if v.smant() < 0 {
        None
    } else {
        Some(v.smant() / (30 * pow10(v.sscale())))
    }
}

/// Converts a decoded frame count into whole seconds: `None` for a negative
/// count, otherwise the frame value divided by 30, rounded down.
pub fn play_secs(v: &FloatVal) -> (r: Option<u64>)
    ensures
        ({
            match spec_play_secs(*v) {
                Some(x) => r == Some(x as u64) && 0 <= x <= 33_333_333_333_333_333,
                None => r.is_none(),
            }
        }),
{
    proof {
        use_type_invariant(v);
        lemma_pow10_bounds(v.sscale());
    }
    if v.mant < 0 {
        None
    } else {
        let p = pow10_i128(v.scale);
        let denom: u128 = 30u128 * (p as u128);
        let d: u128 = (v.mant as u128) / denom;
        proof {
            let q = v.smant() / (30 * pow10(v.sscale()));
            assert(q == d) by {
                assert(denom == 30 * pow10(v.sscale()));
            }
            assert(0 <= q <= 33_333_333_333_333_333) by {
                vstd::arithmetic::div_mod::lemma_div_pos_is_pos(v.smant(), denom as int);
                vstd::arithmetic::div_mod::lemma_div_is_ordered_by_denominator(
                    v.smant(),
                    30,
                    denom as int,
                );
                vstd::arithmetic::div_mod::lemma_div_is_ordered(
                    v.smant(),
                    float_mant_cap(),
                    30,
                );
            }
        }
        Some(d as u64)
    }
}

} // verus!

verus! {

/// The value zero with an empty fraction, as a spec-level constant.
pub closed spec fn spec_float_zero() -> FloatVal {
    FloatVal { mant: 0, scale: 0 }
}

/// The spec-level zero has a zero mantissa and an empty fraction.
pub broadcast proof fn lemma_float_zero()
    ensures
        #[trigger] spec_float_zero().smant() == 0,
        spec_float_zero().sscale() == 0,
        spec_float_zero().valid(),
{
}

} // verus!
