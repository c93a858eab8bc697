use vstd::prelude::*;

use crate::number::{
    spec_mantissa, spec_number_value, spec_pow10, spec_scale, value_fits, Number,
};
use crate::numformat::{spec_default_format, spec_grouping_from, GroupingStyle, NumberFormat};
use crate::strutil::str_eq;
use crate::value::Value;

verus! {

/// The ghost shape of a runtime value: what the contracts speak about. A
/// number is its mantissa and scale; which machine variant carries it is
/// not part of the model.
pub enum ValueModel {
    VText(Seq<char>),
    VNumber(int, nat, Option<NumberFormat>),
    VEmpty,
    VError,
}

/// The model of a runtime value.
pub open spec fn value_model(v: Value) -> ValueModel {
    match v {
        Value::Text(s) => ValueModel::VText(s@),
        Value::Number { value, format } => ValueModel::VNumber(
            spec_mantissa(value),
            spec_scale(value),
            format,
        ),
        Value::Empty => ValueModel::VEmpty,
        Value::Error => ValueModel::VError,
    }
}

/// The models of a positional argument list.
pub open spec fn pos_models(s: Seq<Value>) -> Seq<ValueModel> {
    s.map_values(|v: Value| value_model(v))
}

/// The models of a named argument list.
pub open spec fn named_models(s: Seq<(String, Value)>) -> Seq<(Seq<char>, ValueModel)> {
    s.map_values(|p: (String, Value)| (p.0@, value_model(p.1)))
}

/// Clamps the value `m * 10^(-e)` into `[lo, hi]` and rounds halves up,
/// exactly as a digit-count option is read.
pub open spec fn spec_clamp_number(m: int, e: nat, lo: int, hi: int) -> int {
    let p = spec_pow10(e);
    if m < lo * p {
        lo
    } else if m > hi * p {
        hi
    } else {
        (2 * m + p) / (2 * p)
    }
}

/// What a digit-count option reads from a value: a number, or a numeric
/// text, clamped into the permitted range; anything else reads nothing.
pub open spec fn spec_read_digits(v: ValueModel, lo: int, hi: int) -> Option<int> {
    match v {
        ValueModel::VText(s) => match spec_number_value(s) {
            Some((m, e)) => {
                if value_fits(m, e) {
                    Some(spec_clamp_number(m, e, lo, hi))
                } else {
                    None
                }
            },
            None => None,
        },
        ValueModel::VNumber(m, e, _) => Some(spec_clamp_number(m, e, lo, hi)),
        _ => None,
    }
}

pub open spec fn opt_usize(v: Option<int>) -> Option<usize> {
    match v {
        Some(x) => Some(x as usize),
        None => None,
    }
}

/// How one named option updates a number format.
pub open spec fn spec_apply_option(fmt: NumberFormat, key: Seq<char>, v: ValueModel) -> NumberFormat {
    if key == "useGrouping"@ {
        match v {
            ValueModel::VText(s) => match spec_grouping_from(s) {
                Some(g) => NumberFormat { use_grouping: g, ..fmt },
                None => fmt,
            },
            _ => fmt,
        }
    } else if key == "minimumIntegerDigits"@ {
        NumberFormat { minimum_integer_digits: opt_usize(spec_read_digits(v, 1, 21)), ..fmt }
    } else if key == "minimumFractionDigits"@ {
        NumberFormat { minimum_fraction_digits: opt_usize(spec_read_digits(v, 0, 100)), ..fmt }
    } else if key == "maximumFractionDigits"@ {
        NumberFormat { maximum_fraction_digits: opt_usize(spec_read_digits(v, 0, 100)), ..fmt }
    } else if key == "minimumSignificantDigits"@ {
        NumberFormat { minimum_significant_digits: opt_usize(spec_read_digits(v, 1, 21)), ..fmt }
    } else if key == "maximumSignificantDigits"@ {
        NumberFormat { maximum_significant_digits: opt_usize(spec_read_digits(v, 1, 21)), ..fmt }
    } else {
        fmt
    }
}

/// Reads the named options over a starting format, in call order; a later
/// option overrides an earlier one.
pub open spec fn spec_parse_number_format(
    base: Option<NumberFormat>,
    named: Seq<(Seq<char>, ValueModel)>,
) -> NumberFormat
    decreases named.len(),
{
    if named.len() == 0 {
        match base {
            Some(f) => f,
            None => spec_default_format(),
        }
    } else {
        spec_apply_option(
            spec_parse_number_format(base, named.drop_last()),
            named.last().0,
            named.last().1,
        )
    }
}

/// What the NUMBER function returns: its first positional argument read
/// as a number, carrying the format the named options build; a missing
/// argument, or text that is not numeric, fails.
pub open spec fn spec_number_fn(pos: Seq<ValueModel>, named: Seq<(Seq<char>, ValueModel)>) -> ValueModel {
    if pos.len() == 0 {
        ValueModel::VError
    } else {
        match pos[0] {
            ValueModel::VText(s) => match spec_number_value(s) {
                Some((m, e)) => {
                    if value_fits(m, e) {
                        ValueModel::VNumber(m, e, Some(spec_parse_number_format(None, named)))
                    } else {
                        ValueModel::VError
                    }
                },
                None => ValueModel::VError,
            },
            ValueModel::VNumber(m, e, format) => ValueModel::VNumber(
                m,
                e,
                Some(spec_parse_number_format(format, named)),
            ),
            ValueModel::VEmpty => ValueModel::VEmpty,
            ValueModel::VError => ValueModel::VError,
        }
    }
}

/// Reads a digit-count option from a value, clamped into `[lo, hi]`.
fn read_digits(value: &Value, lo: usize, hi: usize) -> (r: Option<usize>)
    requires
        lo <= hi <= 100,
    ensures
        opt_usize(spec_read_digits(value_model(*value), lo as int, hi as int)) == r,
{
    match value {
        Value::Text(s) => match Number::from_str(s.as_str()) {
            Ok(n) => Some(clamp_number(&n, lo, hi)),
            Err(_) => None,
        },
        Value::Number { value: n, .. } => Some(clamp_number(n, lo, hi)),
        _ => None,
    }
}

/// Clamps a number into `[lo, hi]`, rounding halves up.
fn clamp_number(n: &Number, lo: usize, hi: usize) -> (r: usize)
    requires
        lo <= hi <= 100,
    ensures
        r == spec_clamp_number(spec_mantissa(*n), spec_scale(*n), lo as int, hi as int),
{
    let ghost m = spec_mantissa(*n);
    let ghost e = spec_scale(*n);
    let ghost p = spec_pow10(e);
    proof {
        crate::number::lemma_pow10_pos(e);
    }
    match n {
        Number::I64(v) => clamp_int_cases(*v as i128, lo, hi, Ghost(m)),
        Number::U64(v) => {
            proof {
                assert(*v as i128 as int == m);
            }
            clamp_int_cases(*v as i128, lo, hi, Ghost(m))
        },
        Number::I128(v) => clamp_int_cases(*v, lo, hi, Ghost(m)),
        Number::U128(v) => {
            if *v > hi as u128 {
                proof {
                    assert(spec_pow10(0) == 1);
                }
                hi
            } else {
                proof {
                    assert(spec_pow10(0) == 1);
                }
                clamp_int_cases(*v as i128, lo, hi, Ghost(m))
            }
        },
        Number::Decimal { mantissa, scale } => {
            if *mantissa < 0 {
                proof {
                    lemma_clamp_below(m, e, lo as int, hi as int);
                }
                lo
            } else if *scale >= 39 {
                // the value sits below one half: it clamps to the floor
                proof {
                    lemma_clamp_tiny(m, e, lo as int, hi as int);
                }
                lo
            } else {
                proof {
                    assert(spec_pow10(38) < u128::MAX as int) by {
                        reveal_with_fuel(spec_pow10, 39);
                    }
                    crate::number::lemma_pow10_mono(*scale as nat, 38);
                }
                let p10 = crate::number::pow10_u128(*scale);
                let mag = *mantissa as u128;
                let q = mag / p10;
                let rem = mag % p10;
                proof {
                    assert(rem < p10);
                    assert(2 * spec_pow10(38) <= u128::MAX as int) by {
                        reveal_with_fuel(spec_pow10, 39);
                    }
                }
                proof {
                    lemma_clamp_split(m, e, lo as int, hi as int, q as int, rem as int);
                }
                if q < lo as u128 {
                    lo
                } else if q > hi as u128 || (q == hi as u128 && rem > 0) {
                    hi
                } else {
                    if 2 * rem >= p10 {
                        (q as usize) + 1
                    } else {
                        q as usize
                    }
                }
            }
        },
    }
}

/// Clamping an integer value: the scale is zero, so the rounding is the
/// identity.
fn clamp_int_cases(v: i128, lo: usize, hi: usize, m: Ghost<int>) -> (r: usize)
    requires
        lo <= hi <= 100,
        m@ == v as int,
    ensures
        r == spec_clamp_number(m@, 0, lo as int, hi as int),
{
    proof {
        assert(spec_pow10(0) == 1);
        if lo as int <= v as int <= hi as int {
            vstd::arithmetic::div_mod::lemma_fundamental_div_mod_converse(
                2 * (v as int) + 1,
                2,
                v as int,
                1,
            );
        }
    }
    if v < lo as i128 {
        lo
    } else if v > hi as i128 {
        hi
    } else {
        v as usize
    }
}

/// A negative mantissa sits below any nonnegative floor.
proof fn lemma_clamp_below(m: int, e: nat, lo: int, hi: int)
    requires
        m < 0,
        lo >= 0,
    ensures
        spec_clamp_number(m, e, lo, hi) == lo,
{
    crate::number::lemma_pow10_pos(e);
    let p = spec_pow10(e);
    assert(lo * p >= 0) by (nonlinear_arith)
        requires
            lo >= 0,
            p >= 1,
    ;
}

/// With thirty-nine or more fraction digits, a representable mantissa
/// denotes less than one half, so the clamp lands on the floor.
proof fn lemma_clamp_tiny(m: int, e: nat, lo: int, hi: int)
    requires
        0 <= m <= i128::MAX as int,
        e >= 39,
        0 <= lo <= hi,
    ensures
        spec_clamp_number(m, e, lo, hi) == lo,
{
    crate::number::lemma_pow10_pos(e);
    let p = spec_pow10(e);
    assert(spec_pow10(39) > 2 * (i128::MAX as int) + 1) by {
        reveal_with_fuel(spec_pow10, 40);
    }
    crate::number::lemma_pow10_mono(39, e);
    if lo == 0 {
        assert(0 * p == 0) by (nonlinear_arith);
        assert(hi * p >= 0) by (nonlinear_arith)
            requires
                hi >= 0,
                p >= 1,
        ;
        if m > hi * p {
            assert(m <= i128::MAX as int);
            assert(hi * p >= 1 * p || hi == 0) by (nonlinear_arith)
                requires
                    hi >= 0,
                    p >= 1,
            ;
            if hi >= 1 {
                assert(hi * p >= p) by (nonlinear_arith)
                    requires
                        hi >= 1,
                        p >= 1,
                ;
            }
        }
        if !(m > hi * p) {
            // 2m + p < 2p, so the rounded value is zero
            assert(2 * m + p < 2 * p);
            assert(2 * p >= 1);
            vstd::arithmetic::div_mod::lemma_fundamental_div_mod_converse(
                2 * m + p,
                2 * p,
                0,
                2 * m + p,
            );
        }
    } else {
        assert(lo * p >= p) by (nonlinear_arith)
            requires
                lo >= 1,
                p >= 1,
        ;
    }
}

/// Division with remainder settles all three clamp comparisons.
proof fn lemma_clamp_split(m: int, e: nat, lo: int, hi: int, q: int, rem: int)
    requires
        0 <= m,
        0 <= lo <= hi,
        q == m / spec_pow10(e),
        rem == m % spec_pow10(e),
    ensures
        (m < lo * spec_pow10(e)) == (q < lo),
        (m > hi * spec_pow10(e)) == (q > hi || (q == hi && rem > 0)),
        (q >= lo && !(q > hi || (q == hi && rem > 0))) ==> (2 * m + spec_pow10(e)) / (2 * spec_pow10(
            e,
        )) == q + if 2 * rem >= spec_pow10(e) {
            1int
        } else {
            0int
        },
{
    crate::number::lemma_pow10_pos(e);
    let p = spec_pow10(e);
    vstd::arithmetic::div_mod::lemma_fundamental_div_mod(m, p);
    assert(m == q * p + rem);
    assert(0 <= rem < p);
    // q < lo exactly when m < lo * p
    assert((m < lo * p) == (q < lo)) by (nonlinear_arith)
        requires
            m == q * p + rem,
            0 <= rem < p,
            p >= 1,
            0 <= m,
    ;
    // m > hi * p exactly when the quotient passes hi, or reaches it with a
    // remainder left over
    assert((m > hi * p) == (q > hi || (q == hi && rem > 0))) by (nonlinear_arith)
        requires
            m == q * p + rem,
            0 <= rem < p,
            p >= 1,
    ;
    if q >= lo && !(q > hi || (q == hi && rem > 0)) {
        if 2 * rem >= p {
            assert(2 * m + p == (q + 1) * (2 * p) + (2 * rem - p)) by (nonlinear_arith)
                requires
                    m == q * p + rem,
            ;
            vstd::arithmetic::div_mod::lemma_fundamental_div_mod_converse(
                2 * m + p,
                2 * p,
                q + 1,
                2 * rem - p,
            );
        } else {
            assert(2 * m + p == q * (2 * p) + (2 * rem + p)) by (nonlinear_arith)
                requires
                    m == q * p + rem,
            ;
            vstd::arithmetic::div_mod::lemma_fundamental_div_mod_converse(
                2 * m + p,
                2 * p,
                q,
                2 * rem + p,
            );
        }
    }
}

/// Folds the named options of a NUMBER call over a starting format.
#[verifier::loop_isolation(false)]
fn parse_number_format(base: Option<NumberFormat>, named: &Vec<(String, Value)>) -> (r:
    NumberFormat)
    ensures
        r == spec_parse_number_format(base, named_models(named@)),
{
    let mut fmt = match base {
        Some(f) => f,
        None => NumberFormat::default(),
    };
    let n = named.len();
    let mut i: usize = 0;
    while i < n
        invariant
            i <= n,
            n == named@.len(),
            fmt == spec_parse_number_format(base, named_models(named@).take(i as int)),
        decreases n - i,
    {
        let ghost pre = named_models(named@).take(i as int);
        let ghost pre1 = named_models(named@).take(i as int + 1);
        proof {
            assert(pre1.drop_last() =~= pre);
            assert(pre1.last() == (named@[i as int].0@, value_model(named@[i as int].1)));
        }
        let key = &named[i].0;
        let value = &named[i].1;
        if str_eq(key.as_str(), "useGrouping") {
            match value {
                Value::Text(s) => {
                    match GroupingStyle::from_str(s.as_str()) {
                        Ok(g) => {
                            fmt.use_grouping = g;
                        },
                        Err(_) => {},
                    }
                },
                _ => {},
            }
        } else if str_eq(key.as_str(), "minimumIntegerDigits") {
            fmt.minimum_integer_digits = read_digits(value, 1, 21);
        } else if str_eq(key.as_str(), "minimumFractionDigits") {
            fmt.minimum_fraction_digits = read_digits(value, 0, 100);
        } else if str_eq(key.as_str(), "maximumFractionDigits") {
            fmt.maximum_fraction_digits = read_digits(value, 0, 100);
        } else if str_eq(key.as_str(), "minimumSignificantDigits") {
            fmt.minimum_significant_digits = read_digits(value, 1, 21);
        } else if str_eq(key.as_str(), "maximumSignificantDigits") {
            fmt.maximum_significant_digits = read_digits(value, 1, 21);
        }
        i = i + 1;
    }
    proof {
        assert(named_models(named@).take(n as int) =~= named_models(named@));
    }
    fmt
}

/// The built-in NUMBER function: reads its first positional argument as a
/// number and attaches the format the named options describe.
pub fn number(positional_args: &Vec<Value>, named_args: &Vec<(String, Value)>) -> (r: Value)
    ensures
        value_model(r) == spec_number_fn(pos_models(positional_args@), named_models(named_args@)),
{
    if positional_args.len() == 0 {
        Value::Error
    } else {
        match &positional_args[0] {
            Value::Text(s) => match Number::from_str(s.as_str()) {
                Ok(n) => Value::Number {
                    value: n,
                    format: Some(parse_number_format(None, named_args)),
                },
                Err(_) => Value::Error,
            },
            Value::Number { value, format } => {
                let base = match format {
                    Some(f) => Some(f.clone()),
                    None => None,
                };
                Value::Number { value: *value, format: Some(parse_number_format(base, named_args)) }
            },
            Value::Empty => Value::Empty,
            Value::Error => Value::Error,
        }
    }
}

/// The option names the NUMBER function recognizes but does not read.
pub open spec fn spec_number_option_unimplemented(key: Seq<char>) -> bool {
    ||| key == "style"@
    ||| key == "currency"@
    ||| key == "currencyDisplay"@
}

/// Checks a NUMBER call against its declared shape: exactly one
/// positional argument, and none of the declared-but-unread options.
#[verifier::loop_isolation(false)]
pub fn validate_number_args(
    positional_args: &Vec<Value>,
    named_args: &Vec<(String, Value)>,
) -> (r: Result<(), ValidationError>)
    ensures
        positional_args@.len() != 1 ==> (match r {
            Err(ValidationError::NumberOfPositionalParams { expected, actual, .. }) => expected
                == 1 && actual == positional_args@.len(),
            _ => false,
        }),
        r is Ok ==> positional_args@.len() == 1 && forall|j: int|
            0 <= j < named_args@.len() ==> !spec_number_option_unimplemented(
                (#[trigger] named_args@[j]).0@,
            ),
        (positional_args@.len() == 1 && exists|j: int|
            0 <= j < named_args@.len() && spec_number_option_unimplemented(
                (#[trigger] named_args@[j]).0@,
            )) ==> r is Err,
        (positional_args@.len() == 1 && forall|j: int|
            0 <= j < named_args@.len() ==> !spec_number_option_unimplemented(
                (#[trigger] named_args@[j]).0@,
            )) ==> r is Ok,
{
    if positional_args.len() != 1 {
        return Err(
            ValidationError::NumberOfPositionalParams {
                fn_name: "NUMBER".to_owned(),
                expected: 1,
                actual: positional_args.len(),
            },
        );
    }
    let n = named_args.len();
    let mut j: usize = 0;
    while j < n
        invariant
            j <= n,
            n == named_args@.len(),
            forall|k: int|
                0 <= k < j ==> !spec_number_option_unimplemented((#[trigger] named_args@[k]).0@),
        decreases n - j,
    {
        let key = &named_args[j].0;
        if str_eq(key.as_str(), "style") || str_eq(key.as_str(), "currency") || str_eq(
            key.as_str(),
            "currencyDisplay",
        ) {
            return Err(
                ValidationError::Unimplemented { fn_name: "NUMBER".to_owned(), feature: key.clone() },
            );
        }
        j = j + 1;
    }
    Ok(())
}

/// The error of a function called against its declared shape.
#[derive(Debug)]
pub enum ValidationError {
    NumberOfPositionalParams { fn_name: String, expected: usize, actual: usize },
    Unimplemented { fn_name: String, feature: String },
    InvalidArgument { fn_name: String, arg_name: String },
    InvalidArgumentValue { fn_name: String, arg_name: String, arg_value: String },
}

/// A name that stands for a formatting function a host registers.
pub trait FluentFunctionDescriptor {
    fn impl_name(&self) -> &'static str;
}

/// A resolver from a function name as written in a resource to the name
/// of the host function that implements it.
pub trait FluentFunctionResolver {
    fn find(fluent_fn_name: &str) -> Option<&'static str>;
}

/// The names registered for runtime formatting functions, keyed by the
/// name used in resources.
#[derive(Debug)]
pub struct FluentFunctionRegistry {
    pub fns: Vec<(String, Vec<String>)>,
}

impl FluentFunctionRegistry {
    /// An empty registry.
    pub fn new() -> (r: FluentFunctionRegistry)
        ensures
            r.fns@.len() == 0,
    {
        FluentFunctionRegistry { fns: Vec::new() }
    }

    /// Records one implementation name under a function name: the first
    /// row with the name grows by it, or a new row is opened.
    pub fn register(&mut self, name: &str, impl_name: &str)
        ensures
            exists|i: int|
                0 <= i < final(self).fns@.len() && (#[trigger] final(self).fns@[i]).0@ == name@
                    && final(self).fns@[i].1@.len() >= 1 && final(self).fns@[i].1@.last()@
                    == impl_name@,
            forall|i: int|
                (0 <= i < old(self).fns@.len() && (#[trigger] old(self).fns@[i]).0@ != name@)
                    ==> i < final(self).fns@.len() && final(self).fns@[i] == old(self).fns@[i],
    {
        let n = self.fns.len();
        let mut i: usize = 0;
        while i < n
            invariant
                i <= n,
                n == self.fns@.len(),
                self.fns@ == old(self).fns@,
                forall|j: int| 0 <= j < i ==> (#[trigger] self.fns@[j]).0@ != name@,
            decreases n - i,
        {
            if str_eq(self.fns[i].0.as_str(), name) {
                let ghost oldrow = self.fns@[i as int];
                self.fns[i].1.push(impl_name.to_owned());
                proof {
                    assert(self.fns@[i as int].0@ == name@);
                    assert(self.fns@[i as int].1@.last()@ == impl_name@);
                    assert forall|j: int|
                        (0 <= j < old(self).fns@.len() && (#[trigger] old(self).fns@[j]).0@
                            != name@) implies j < self.fns@.len() && self.fns@[j] == old(
                        self,
                    ).fns@[j] by {
                        assert(j != i as int);
                    }
                }
                return ;
            }
            i = i + 1;
        }
        let mut list: Vec<String> = Vec::new();
        list.push(impl_name.to_owned());
        let ghost oldfns = self.fns@;
        self.fns.push((name.to_owned(), list));
        proof {
            let li = self.fns@.len() - 1;
            assert(self.fns@[li].0@ == name@);
            assert(self.fns@[li].1@.last()@ == impl_name@);
            assert forall|j: int|
                (0 <= j < oldfns.len() && (#[trigger] oldfns[j]).0@ != name@) implies j
                < self.fns@.len() && self.fns@[j] == oldfns[j] by {}
        }
    }
}

} // verus!
