use vstd::prelude::*;

use crate::strutil::{
    dec_digits, digit_char, digit_value, is_ascii_digit, push_dec_digits, push_zero_chars,
    zero_chars,
};

verus! {

/// A numeric value: a signed or unsigned machine integer, or an exact
/// decimal fraction written as `mantissa * 10^(-scale)`.
///
/// A parsed number is kept canonical: a `Decimal` has a positive scale and a
/// mantissa not divisible by ten, so every value has exactly one form and
/// two numbers are equal exactly when mantissa and scale agree.
#[derive(Debug, Clone, Copy)]
pub enum Number {
    I64(i64),
    U64(u64),
    I128(i128),
    U128(u128),
    Decimal { mantissa: i128, scale: u32 },
}

/// The error of a numeric literal that does not parse.
#[derive(Debug, Clone, PartialEq, Eq)]
pub struct ParseNumberError;

pub open spec fn spec_mantissa(n: Number) -> int {
    match n {
        Number::I64(v) => v as int,
        Number::U64(v) => v as int,
        Number::I128(v) => v as int,
        Number::U128(v) => v as int,
        Number::Decimal { mantissa, .. } => mantissa as int,
    }
}

pub open spec fn spec_scale(n: Number) -> nat {
    match n {
        Number::Decimal { scale, .. } => scale as nat,
        _ => 0,
    }
}

/// The canonical form: a decimal has a real fractional part and no trailing
/// zero digit, so distinct (mantissa, scale) pairs denote distinct values.
pub open spec fn is_canonical(n: Number) -> bool {
    match n {
        Number::Decimal { mantissa, scale } => scale > 0 && mantissa as int % 10 != 0,
        _ => true,
    }
}

pub open spec fn all_digits(s: Seq<char>) -> bool {
    forall|i: int| 0 <= i < s.len() ==> is_ascii_digit(s[i])
}

/// The value of a digit string read as a decimal numeral.
pub open spec fn digits_value(s: Seq<char>) -> int
    decreases s.len(),
{
    if s.len() == 0 {
        0
    } else {
        digits_value(s.drop_last()) * 10 + digit_value(s.last())
    }
}

/// The index of the first `.` in `s`, or -1 when there is none.
pub open spec fn first_dot(s: Seq<char>) -> int
    decreases s.len(),
{
    if s.len() == 0 {
        -1
    } else if s[0] == '.' {
        0
    } else {
        let r = first_dot(s.skip(1));
        if r < 0 {
            -1
        } else {
            r + 1
        }
    }
}

/// Splits a numeric literal into sign, integer digits, and fraction digits;
/// `None` when the text is not `-?digits(.digits)?`.
pub open spec fn number_parts(s: Seq<char>) -> Option<(bool, Seq<char>, Seq<char>)> {
    let neg = s.len() > 0 && s[0] == '-';
    let t = if neg {
        s.skip(1)
    } else {
        s
    };
    let d = first_dot(t);
    if d < 0 {
        if t.len() > 0 && all_digits(t) {
            Some((neg, t, Seq::<char>::empty()))
        } else {
            None
        }
    } else {
        let a = t.take(d);
        let b = t.skip(d + 1);
        if a.len() > 0 && b.len() > 0 && all_digits(a) && all_digits(b) {
            Some((neg, a, b))
        } else {
            None
        }
    }
}

/// Drops trailing zero characters.
pub open spec fn strip_zeros(s: Seq<char>) -> Seq<char>
    decreases s.len(),
{
    if s.len() > 0 && s.last() == '0' {
        strip_zeros(s.drop_last())
    } else {
        s
    }
}

/// The mathematical reading of a numeric literal, already in canonical form:
/// the signed digit value with trailing fraction zeros dropped, and the
/// number of remaining fraction digits. Dropping the zeros does not change
/// the denoted value, it only fixes one representation for it.
pub open spec fn spec_number_value(s: Seq<char>) -> Option<(int, nat)> {
    match number_parts(s) {
        None => None,
        Some((neg, a, b)) => {
            let b2 = strip_zeros(b);
            let m = digits_value(a + b2);
            Some(
                (
                    if neg {
                        -m
                    } else {
                        m
                    },
                    b2.len(),
                ),
            )
        },
    }
}

/// Whether a parsed (mantissa, scale) pair is representable in `Number`.
pub open spec fn value_fits(m: int, e: nat) -> bool {
    if e == 0 {
        -(i128::MAX as int) - 1 <= m <= u128::MAX as int
    } else {
        -(i128::MAX as int) - 1 <= m <= i128::MAX as int && e <= u32::MAX as nat
    }
}

pub proof fn lemma_digits_value_nonneg(s: Seq<char>)
    requires
        all_digits(s),
    ensures
        digits_value(s) >= 0,
    decreases s.len(),
{
    if s.len() > 0 {
        assert(all_digits(s.drop_last()));
        lemma_digits_value_nonneg(s.drop_last());
        assert(digits_value(s.drop_last()) * 10 >= 0) by (nonlinear_arith)
            requires
                digits_value(s.drop_last()) >= 0,
        ;
    }
}

/// The value of a digit string never falls when more digits follow.
pub proof fn lemma_digits_value_prefix_le(s: Seq<char>, p: int)
    requires
        all_digits(s),
        0 <= p <= s.len(),
    ensures
        digits_value(s.take(p)) <= digits_value(s),
    decreases s.len(),
{
    if p == s.len() {
        assert(s.take(p) =~= s);
    } else {
        let s0 = s.drop_last();
        assert(all_digits(s0));
        assert(s.take(p) =~= s0.take(p));
        lemma_digits_value_prefix_le(s0, p);
        lemma_digits_value_nonneg(s0);
        assert(digits_value(s0) * 10 >= digits_value(s0)) by (nonlinear_arith)
            requires
                digits_value(s0) >= 0,
        ;
    }
}

/// The last digit of a digit string is its value modulo ten.
pub proof fn lemma_digits_last_mod(s: Seq<char>)
    requires
        all_digits(s),
        s.len() > 0,
    ensures
        digits_value(s) % 10 == digit_value(s.last()),
        digits_value(s) / 10 == digits_value(s.drop_last()),
{
    assert(all_digits(s.drop_last()));
    lemma_digits_value_nonneg(s.drop_last());
    vstd::arithmetic::div_mod::lemma_fundamental_div_mod_converse(
        digits_value(s),
        10,
        digits_value(s.drop_last()),
        digit_value(s.last()),
    );
}

/// Negation keeps a value away from the multiples of ten.
pub proof fn lemma_neg_mod10(x: int)
    requires
        x % 10 != 0,
    ensures
        (-x) % 10 != 0,
{
    vstd::arithmetic::div_mod::lemma_fundamental_div_mod(x, 10);
    let q = x / 10;
    let d = x % 10;
    vstd::arithmetic::div_mod::lemma_fundamental_div_mod_converse(-x, 10, -q - 1, 10 - d);
}

/// Where a scan stops is where `first_dot` points.
pub proof fn lemma_first_dot_at(s: Seq<char>, i: int)
    requires
        0 <= i <= s.len(),
        forall|j: int| 0 <= j < i ==> s[j] != '.',
        i == s.len() || s[i] == '.',
    ensures
        first_dot(s) == if i == s.len() {
            -1int
        } else {
            i
        },
    decreases s.len(),
{
    if s.len() == 0 {
    } else if i == 0 {
    } else {
        let t = s.skip(1);
        assert(forall|j: int| 0 <= j < i - 1 ==> t[j] == s[j + 1] && s[j + 1] != '.');
        assert(i - 1 == t.len() || t[i - 1] == s[i]);
        lemma_first_dot_at(t, i - 1);
    }
}

/// Stripping trailing zeros is taking the prefix that ends at the last
/// nonzero character.
pub proof fn lemma_strip_zeros_take(b: Seq<char>, p: int)
    requires
        0 <= p <= b.len(),
        forall|j: int| p <= j < b.len() ==> b[j] == '0',
        p == 0 || b[p - 1] != '0',
    ensures
        strip_zeros(b) == b.take(p),
    decreases b.len(),
{
    if b.len() == 0 {
        assert(b.take(p) =~= b);
    } else if p == b.len() {
        assert(b.take(p) =~= b);
    } else {
        let b0 = b.drop_last();
        assert(forall|j: int| p <= j < b0.len() ==> b0[j] == b[j] && b[j] == '0');
        lemma_strip_zeros_take(b0, p);
        assert(b0.take(p) =~= b.take(p));
    }
}

pub open spec fn spec_pow10(e: nat) -> int
    decreases e,
{
    if e == 0 {
        1
    } else {
        10 * spec_pow10((e - 1) as nat)
    }
}

pub proof fn lemma_pow10_pos(e: nat)
    ensures
        spec_pow10(e) >= 1,
    decreases e,
{
    if e > 0 {
        lemma_pow10_pos((e - 1) as nat);
    }
}

pub proof fn lemma_pow10_mono(a: nat, b: nat)
    requires
        a <= b,
    ensures
        spec_pow10(a) <= spec_pow10(b),
    decreases b,
{
    if a < b {
        lemma_pow10_mono(a, (b - 1) as nat);
        lemma_pow10_pos((b - 1) as nat);
    }
}

/// A number is smaller than ten to the power of its digit count, and at
/// least ten to the power of the count less one when it has several digits.
pub proof fn lemma_dec_digits_len(n: nat)
    ensures
        n < spec_pow10(dec_digits(n).len()),
        dec_digits(n).len() >= 2 ==> n >= spec_pow10((dec_digits(n).len() - 1) as nat),
        dec_digits(n).len() >= 1,
    decreases n,
{
    if n < 10 {
        assert(dec_digits(n).len() == 1);
        assert(spec_pow10(1) == 10 * spec_pow10(0));
    } else {
        lemma_dec_digits_len(n / 10);
        let l0 = dec_digits(n / 10).len();
        assert(dec_digits(n).len() == l0 + 1);
        assert(spec_pow10(l0 + 1) == 10 * spec_pow10(l0));
        assert(n / 10 < spec_pow10(l0));
        assert(n < 10 * spec_pow10(l0)) by (nonlinear_arith)
            requires
                n / 10 < spec_pow10(l0),
                n >= 10,
        ;
        assert(n >= spec_pow10(l0)) by {
            if l0 == 1 {
                lemma_pow10_pos(0);
            } else {
                assert(n / 10 >= spec_pow10((l0 - 1) as nat));
                assert(n >= 10 * spec_pow10((l0 - 1) as nat)) by (nonlinear_arith)
                    requires
                        n / 10 >= spec_pow10((l0 - 1) as nat),
                        spec_pow10((l0 - 1) as nat) >= 0,
                ;
            }
        }
    }
}

/// Reads decimal digits of `s` in positions `lo..hi`, extending the value
/// already accumulated for the ghost `prefix`; refuses a character that is
/// no digit and a value beyond the widest magnitude.
fn accum_digits(s: &str, lo: usize, hi: usize, init: u128, prefix: Ghost<Seq<char>>) -> (r: Result<
    u128,
    ParseNumberError,
>)
    requires
        lo <= hi <= s@.len(),
        all_digits(prefix@),
        init as int == digits_value(prefix@),
    ensures
        ({
            let sub = s@.subrange(lo as int, hi as int);
            let whole = prefix@ + sub;
            &&& (r is Ok <==> all_digits(sub) && digits_value(whole) <= u128::MAX as int)
            &&& (r matches Ok(v) ==> v as int == digits_value(whole) && all_digits(whole))
        }),
{
    let ghost sub = s@.subrange(lo as int, hi as int);
    let ghost whole = prefix@ + sub;
    let mut acc: u128 = init;
    let mut i: usize = lo;
    while i < hi
        invariant
            lo <= i <= hi <= s@.len(),
            all_digits(prefix@),
            all_digits(prefix@ + s@.subrange(lo as int, i as int)),
            acc as int == digits_value(prefix@ + s@.subrange(lo as int, i as int)),
            sub == s@.subrange(lo as int, hi as int),
            whole == prefix@ + sub,
        decreases hi - i,
    {
        let ghost p_i = prefix@ + s@.subrange(lo as int, i as int);
        let ghost p_i1 = prefix@ + s@.subrange(lo as int, i as int + 1);
        let c = s.get_char(i);
        if !(c >= '0' && c <= '9') {
            proof {
                assert(sub[i - lo] == c);
                assert(!all_digits(sub));
            }
            return Err(ParseNumberError);
        }
        let d: u128 = ((c as u32) - 48) as u128;
        proof {
            assert(p_i1.drop_last() =~= p_i);
            assert(p_i1.last() == c);
            assert forall|j: int| 0 <= j < p_i1.len() implies is_ascii_digit(p_i1[j]) by {
                if j < p_i1.len() - 1 {
                    assert(p_i1[j] == p_i[j]);
                } else {
                    assert(p_i1[j] == c);
                }
            }
            assert(digits_value(p_i1) == acc as int * 10 + d);
        }
        if acc > u128::MAX / 10 {
            proof {
                lemma_digits_value_nonneg(p_i);
                assert(acc as int * 10 > u128::MAX as int);
                assert(d >= 0);
                if all_digits(sub) {
                    assert(all_digits(whole));
                    assert(p_i1 =~= whole.take(prefix@.len() + (i - lo) + 1));
                    lemma_digits_value_prefix_le(whole, prefix@.len() + (i - lo) + 1);
                    assert(digits_value(whole) > u128::MAX as int);
                }
            }
            return Err(ParseNumberError);
        }
        let acc10 = acc * 10;
        if d > u128::MAX - acc10 {
            proof {
                if all_digits(sub) {
                    assert(all_digits(whole));
                    assert(p_i1 =~= whole.take(prefix@.len() + (i - lo) + 1));
                    lemma_digits_value_prefix_le(whole, prefix@.len() + (i - lo) + 1);
                    assert(digits_value(whole) > u128::MAX as int);
                }
            }
            return Err(ParseNumberError);
        }
        acc = acc10 + d;
        proof {
            assert(acc as int == digits_value(p_i1));
        }
        i = i + 1;
    }
    proof {
        assert(prefix@ + s@.subrange(lo as int, i as int) =~= whole);
        assert forall|j: int| 0 <= j < sub.len() implies is_ascii_digit(sub[j]) by {
            assert(whole[prefix@.len() + j] == sub[j]);
        }
    }
    Ok(acc)
}

impl Number {
    /// Parses a numeric literal of the shape `-?digits(.digits)?`.
    /// Everything else is refused, as is a value too wide to represent.
    #[verifier::rlimit(100)]
    pub fn from_str(s: &str) -> (r: Result<Number, ParseNumberError>)
        ensures
            r is Ok <==> (spec_number_value(s@) matches Some((m, e)) && value_fits(m, e)),
            r matches Ok(n) ==> (spec_number_value(s@) matches Some((m, e)) && spec_mantissa(n)
                == m && spec_scale(n) == e && is_canonical(n)),
    {
        let len = s.unicode_len();
        let neg = len > 0 && s.get_char(0) == '-';
        let toff: usize = if neg {
            1
        } else {
            0
        };
        let ghost t = if neg {
            s@.skip(1)
        } else {
            s@
        };
        proof {
            assert(s@.skip(0) =~= s@);
            assert(t =~= s@.subrange(toff as int, len as int));
        }
        // find the first dot at or after the sign
        let mut dot: usize = len;
        let mut i: usize = toff;
        while i < len
            invariant
                toff <= i <= len,
                len == s@.len(),
                dot == len || (toff <= dot && dot < i && s@[dot as int] == '.'),
                dot == len ==> forall|j: int| toff <= j < i ==> s@[j] != '.',
                dot < len ==> forall|j: int| toff <= j < dot ==> s@[j] != '.',
            decreases len - i,
        {
            if dot == len {
                if s.get_char(i) == '.' {
                    dot = i;
                }
            }
            i = i + 1;
        }
        proof {
            if dot < len {
                lemma_first_dot_at(t, dot - toff);
                assert(first_dot(t) == dot - toff);
            } else {
                lemma_first_dot_at(t, t.len() as int);
                assert(first_dot(t) == -1);
            }
        }
        let aend: usize = dot;
        let ghost a = s@.subrange(toff as int, aend as int);
        proof {
            if dot < len {
                assert(a =~= t.take(dot - toff));
            } else {
                assert(a =~= t);
            }
        }
        if aend == toff {
            // no integer digits at all
            return Err(ParseNumberError);
        }
        if dot < len && dot + 1 == len {
            // a dot with no fraction digits after it
            return Err(ParseNumberError);
        }
        let ghost b = if dot < len {
            s@.subrange(dot + 1, len as int)
        } else {
            Seq::<char>::empty()
        };
        proof {
            if dot < len {
                assert(b =~= t.skip((dot - toff) + 1));
            }
        }
        let r_a = accum_digits(s, toff, aend, 0, Ghost(Seq::empty()));
        proof {
            assert(Seq::<char>::empty() + a =~= a);
        }
        let mag_a: u128;
        match r_a {
            Ok(v) => {
                mag_a = v;
            },
            Err(e) => {
                proof {
                    if all_digits(a) {
                        // the integer digits alone already exceed the
                        // widest magnitude, so no representable value
                        // can come out of this literal
                        if dot == len {
                            assert(number_parts(s@) == Some((neg, a, Seq::<char>::empty())));
                            lemma_value_exceeds(a, Seq::<char>::empty());
                        } else if all_digits(b) {
                            assert(number_parts(s@) == Some((neg, a, b)));
                            lemma_value_exceeds(a, b);
                        }
                    }
                }
                return Err(ParseNumberError);
            },
        }
        if dot == len {
            // integer form
            proof {
                assert(number_parts(s@) == Some((neg, a, Seq::<char>::empty())));
                assert(strip_zeros(Seq::<char>::empty()) =~= Seq::<char>::empty());
                assert(a + Seq::<char>::empty() =~= a);
            }
            Self::build_integer(neg, mag_a, Ghost(s@))
        } else {
            // fraction form: drop trailing zeros, then read the fraction
            let fstart = dot + 1;
            let mut bend: usize = len;
            while bend > fstart && s.get_char(bend - 1) == '0'
                invariant
                    fstart <= bend <= len,
                    len == s@.len(),
                    forall|j: int| bend <= j < len ==> s@[j] == '0',
                decreases bend,
            {
                bend = bend - 1;
            }
            let ghost b2 = s@.subrange(fstart as int, bend as int);
            proof {
                assert(forall|j: int|
                    bend - fstart <= j < b.len() ==> b[j] == s@[j + fstart] && s@[j + fstart]
                        == '0');
                lemma_strip_zeros_take(b, bend - fstart);
                assert(b2 =~= b.take(bend - fstart));
                assert(strip_zeros(b) == b2);
            }
            let r_b = accum_digits(s, fstart, bend, mag_a, Ghost(a));
            let mag: u128;
            match r_b {
                Ok(v) => {
                    mag = v;
                },
                Err(e) => {
                    proof {
                        if all_digits(b2) {
                            // the digit value itself exceeds the widest
                            // magnitude, whatever the sign
                            assert forall|j: int| 0 <= j < b.len() implies is_ascii_digit(
                                b[j],
                            ) by {
                                if j < b2.len() {
                                    assert(b[j] == b2[j]);
                                } else {
                                    assert(b[j] == s@[j + fstart]);
                                    assert(s@[j + fstart] == '0');
                                }
                            }
                            assert(number_parts(s@) == Some((neg, a, b)));
                        } else {
                            // a bad character sits inside the kept fraction digits
                            let k = choose|k: int| 0 <= k < b2.len() && !is_ascii_digit(b2[k]);
                            assert(b[k] == b2[k]);
                            assert(!all_digits(b));
                        }
                    }
                    return Err(ParseNumberError);
                },
            }
            proof {
                assert(number_parts(s@) == Some((neg, a, b)));
            }
            if bend == fstart {
                // the whole fraction was zeros: an integer value
                proof {
                    assert(b2 =~= Seq::<char>::empty());
                    assert(a + b2 =~= a);
                }
                Self::build_integer(neg, mag, Ghost(s@))
            } else {
                if bend - fstart > u32::MAX as usize {
                    proof {
                        lemma_digits_value_nonneg(a + b2);
                    }
                    return Err(ParseNumberError);
                }
                let scale: u32 = (bend - fstart) as u32;
                proof {
                    assert((a + b2).last() == s@[bend - 1]);
                    assert(is_ascii_digit(s@[bend - 1]));
                    assert(s@[bend - 1] != '0');
                    lemma_digits_last_mod(a + b2);
                    assert(digits_value(a + b2) % 10 != 0);
                    lemma_neg_mod10(digits_value(a + b2));
                    lemma_digits_value_nonneg(a + b2);
                }
                if neg {
                    if mag <= i128::MAX as u128 {
                        Ok(Number::Decimal { mantissa: -(mag as i128), scale })
                    } else if mag == (i128::MAX as u128) + 1 {
                        Ok(Number::Decimal { mantissa: i128::MIN, scale })
                    } else {
                        Err(ParseNumberError)
                    }
                } else {
                    if mag <= i128::MAX as u128 {
                        Ok(Number::Decimal { mantissa: mag as i128, scale })
                    } else {
                        Err(ParseNumberError)
                    }
                }
            }
        }
    }

    /// Wraps a nonnegative magnitude and a sign as an integer number.
    fn build_integer(neg: bool, mag: u128, s: Ghost<Seq<char>>) -> (r: Result<
        Number,
        ParseNumberError,
    >)
        requires
            spec_number_value(s@) matches Some((m, e)) && e == 0 && m == if neg {
                -(mag as int)
            } else {
                mag as int
            },
        ensures
            r is Ok <==> (spec_number_value(s@) matches Some((m, e)) && value_fits(m, e)),
            r matches Ok(n) ==> (spec_number_value(s@) matches Some((m, e)) && spec_mantissa(n)
                == m && spec_scale(n) == e && is_canonical(n)),
    {
        if neg {
            if mag == 0 {
                Ok(Number::I64(0))
            } else if mag <= i64::MAX as u128 {
                Ok(Number::I64(-(mag as i64)))
            } else if mag == (i64::MAX as u128) + 1 {
                Ok(Number::I64(i64::MIN))
            } else if mag <= i128::MAX as u128 {
                Ok(Number::I128(-(mag as i128)))
            } else if mag == (i128::MAX as u128) + 1 {
                Ok(Number::I128(i128::MIN))
            } else {
                Err(ParseNumberError)
            }
        } else {
            if mag <= i64::MAX as u128 {
                Ok(Number::I64(mag as i64))
            } else if mag <= u64::MAX as u128 {
                Ok(Number::U64(mag as u64))
            } else if mag <= i128::MAX as u128 {
                Ok(Number::I128(mag as i128))
            } else {
                Ok(Number::U128(mag))
            }
        }
    }
}

/// The canonical decimal text of the value `m * 10^(-e)`: the sign, then
/// the integer digits, then, for a fractional value, a dot and the
/// fraction digits padded on the left with zeros up to the scale.
pub open spec fn spec_mnum_str(m: int, e: nat) -> Seq<char> {
    let mag = if m < 0 {
        -m
    } else {
        m
    };
    let sign: Seq<char> = if m < 0 {
        seq!['-']
    } else {
        Seq::empty()
    };
    if e == 0 {
        sign + dec_digits(mag as nat)
    } else {
        let p = spec_pow10(e);
        let ip = mag / p;
        let fp = mag % p;
        sign + dec_digits(ip as nat) + seq!['.'] + zero_chars(
            (e - dec_digits(fp as nat).len()) as nat,
        ) + dec_digits(fp as nat)
    }
}

/// The canonical decimal text of a number.
pub open spec fn spec_number_str(n: Number) -> Seq<char> {
    spec_mnum_str(spec_mantissa(n), spec_scale(n))
}

impl Number {
    /// The sign, magnitude and scale of this number.
    fn parts(&self) -> (r: (bool, u128, u32))
        ensures
            ({
                let (neg, mag, sc) = r;
                &&& neg == (spec_mantissa(*self) < 0)
                &&& mag as int == if neg {
                    -spec_mantissa(*self)
                } else {
                    spec_mantissa(*self)
                }
                &&& sc as nat == spec_scale(*self)
            }),
    {
        match self {
            Number::I64(v) => {
                if *v < 0 {
                    (true, (-(*v as i128)) as u128, 0)
                } else {
                    (false, *v as u128, 0)
                }
            },
            Number::U64(v) => (false, *v as u128, 0),
            Number::I128(v) => {
                if *v < 0 {
                    (true, ((-(*v + 1)) as u128) + 1, 0)
                } else {
                    (false, *v as u128, 0)
                }
            },
            Number::U128(v) => (false, *v, 0),
            Number::Decimal { mantissa, scale } => {
                if *mantissa < 0 {
                    (true, ((-(*mantissa + 1)) as u128) + 1, *scale)
                } else {
                    (false, *mantissa as u128, *scale)
                }
            },
        }
    }

    /// Two numbers are the same exactly when mantissa and scale agree; on
    /// canonical values that is equality of the denoted quantities.
    pub fn equals(&self, other: &Number) -> (r: bool)
        ensures
            r == (spec_mantissa(*self) == spec_mantissa(*other) && spec_scale(*self) == spec_scale(
                *other,
            )),
    {
        let (n1, m1, s1) = self.parts();
        let (n2, m2, s2) = other.parts();
        n1 == n2 && m1 == m2 && s1 == s2
    }

    /// Renders the canonical decimal text.
    pub fn as_string(&self) -> (r: String)
        ensures
            r@ == spec_number_str(*self),
    {
        let (neg, mag, scale) = self.parts();
        let mut out = String::new();
        if neg {
            out.push('-');
        }
        if scale == 0 {
            push_dec_digits(&mut out, mag);
        } else {
            let nd = count_dec_digits(mag);
            proof {
                lemma_dec_digits_len(mag as nat);
            }
            if nd <= scale {
                // no whole part: everything sits right of the dot
                proof {
                    lemma_pow10_mono(nd as nat, scale as nat);
                    lemma_pow10_pos(scale as nat);
                    vstd::arithmetic::div_mod::lemma_basic_div(
                        mag as int,
                        spec_pow10(scale as nat),
                    );
                    vstd::arithmetic::div_mod::lemma_small_mod(
                        mag as nat,
                        spec_pow10(scale as nat) as nat,
                    );
                }
                out.push('0');
                out.push('.');
                push_zero_chars(&mut out, (scale - nd) as usize);
                push_dec_digits(&mut out, mag);
            } else {
                // split the digits at the dot with a power of ten
                proof {
                    lemma_pow10_mono(scale as nat, (nd - 1) as nat);
                    lemma_pow10_pos(scale as nat);
                    assert(nd as nat == dec_digits(mag as nat).len());
                    assert(mag as int >= spec_pow10((nd - 1) as nat));
                }
                let p = pow10_u128(scale);
                let ip = mag / p;
                let fp = mag % p;
                proof {
                    lemma_pow10_pos(scale as nat);
                    lemma_dec_digits_len(fp as nat);
                    if dec_digits(fp as nat).len() >= 2 {
                        lemma_pow10_le_inv(
                            (dec_digits(fp as nat).len() - 1) as nat,
                            scale as nat,
                            fp as int,
                        );
                    }
                }
                let fd = count_dec_digits(fp);
                push_dec_digits(&mut out, ip);
                out.push('.');
                push_zero_chars(&mut out, (scale - fd) as usize);
                push_dec_digits(&mut out, fp);
            }
        }
        proof {
            assert(out@ =~= spec_number_str(*self));
        }
        out
    }
}

/// When `10^a <= x < 10^b`, the exponent `a` stays under `b`.
proof fn lemma_pow10_le_inv(a: nat, b: nat, x: int)
    requires
        spec_pow10(a) <= x,
        x < spec_pow10(b),
    ensures
        a < b,
{
    if a >= b {
        lemma_pow10_mono(b, a);
    }
}

/// The count of decimal digits of `n`.
fn count_dec_digits(n: u128) -> (r: u32)
    ensures
        r as nat == dec_digits(n as nat).len(),
        1 <= r <= 39,
    decreases n,
{
    proof {
        lemma_dec_digits_len_le39(n as nat);
    }
    if n < 10 {
        1
    } else {
        let r0 = count_dec_digits(n / 10);
        r0 + 1
    }
}

/// No magnitude that fits the widest machine word needs forty digits.
proof fn lemma_dec_digits_len_le39(n: nat)
    requires
        n <= u128::MAX,
    ensures
        dec_digits(n).len() <= 39,
{
    lemma_dec_digits_len(n);
    if dec_digits(n).len() >= 40 {
        lemma_pow10_mono(39, (dec_digits(n).len() - 1) as nat);
        assert(spec_pow10(39) > u128::MAX as int) by {
            reveal_with_fuel(spec_pow10, 40);
        }
    }
}

/// Ten to the power `e`, computed exactly.
pub fn pow10_u128(e: u32) -> (r: u128)
    requires
        spec_pow10(e as nat) <= u128::MAX as int,
    ensures
        r as int == spec_pow10(e as nat),
{
    let mut i: u32 = 0;
    let mut r: u128 = 1;
    while i < e
        invariant
            i <= e,
            r as int == spec_pow10(i as nat),
            spec_pow10(e as nat) <= u128::MAX as int,
        decreases e - i,
    {
        proof {
            lemma_pow10_mono((i + 1) as nat, e as nat);
            lemma_pow10_pos(i as nat);
        }
        r = r * 10;
        i = i + 1;
    }
    r
}

/// Stripped zeros leave a prefix of the characters they were taken from.
pub proof fn lemma_strip_zeros_prefix(b: Seq<char>)
    ensures
        strip_zeros(b).len() <= b.len(),
        forall|i: int| 0 <= i < strip_zeros(b).len() ==> strip_zeros(b)[i] == b[i],
    decreases b.len(),
{
    if b.len() > 0 && b.last() == '0' {
        lemma_strip_zeros_prefix(b.drop_last());
        assert forall|i: int| 0 <= i < strip_zeros(b).len() implies strip_zeros(b)[i] == b[i] by {
            assert(strip_zeros(b)[i] == b.drop_last()[i]);
        }
    }
}

/// When the integer digits alone exceed the widest magnitude, the whole
/// digit string does too.
proof fn lemma_value_exceeds(a: Seq<char>, b: Seq<char>)
    requires
        all_digits(a),
        all_digits(b),
        digits_value(a) > u128::MAX as int,
    ensures
        digits_value(a + strip_zeros(b)) > u128::MAX as int,
{
    lemma_strip_zeros_prefix(b);
    let b2 = strip_zeros(b);
    assert forall|i: int| 0 <= i < b2.len() implies is_ascii_digit(b2[i]) by {
        assert(b2[i] == b[i]);
    }
    let whole = a + b2;
    assert forall|i: int| 0 <= i < whole.len() implies is_ascii_digit(whole[i]) by {
        if i < a.len() {
            assert(whole[i] == a[i]);
        } else {
            assert(whole[i] == b2[i - a.len()]);
        }
    }
    assert(whole.take(a.len() as int) =~= a);
    lemma_digits_value_prefix_le(whole, a.len() as int);
}

} // verus!
