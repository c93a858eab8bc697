use vstd::prelude::*;

use crate::number::{
    spec_mantissa, spec_number_value, spec_scale, value_fits, Number,
};
use crate::numformat::NumberFormat;

verus! {

/// The tagged runtime value a formatted message works with: a piece of
/// text, a number with an optional format request, an absent value, or a
/// value that failed to produce.
#[derive(Debug)]
pub enum Value {
    Text(String),
    Number { value: Number, format: Option<NumberFormat> },
    Empty,
    Error,
}

/// What reading a text as a number produces: the parsed number when the
/// text denotes one that fits, else the text itself.
pub open spec fn spec_try_number(q: Seq<char>, r: Value) -> bool {
    match spec_number_value(q) {
        Some((m, e)) => {
            if value_fits(m, e) {
                r matches Value::Number { value: n, format } && spec_mantissa(n) == m
                    && spec_scale(n) == e && format is None
            } else {
                r matches Value::Text(s) && s@ == q
            }
        },
        None => r matches Value::Text(s) && s@ == q,
    }
}

impl Clone for Value {
    fn clone(&self) -> (r: Self)
        ensures
            r == *self,
    {
        match self {
            Value::Text(s) => Value::Text(s.clone()),
            Value::Number { value, format } => Value::Number {
                value: *value,
                format: match format {
                    Some(f) => Some(f.clone()),
                    None => None,
                },
            },
            Value::Empty => Value::Empty,
            Value::Error => Value::Error,
        }
    }
}

impl Value {
    /// Reads the text as a number where it parses and fits; otherwise
    /// keeps it as text.
    pub fn try_number(value: &str) -> (r: Value)
        ensures
            spec_try_number(value@, r),
    {
        match Number::from_str(value) {
            Ok(n) => Value::Number { value: n, format: None },
            Err(_) => Value::Text(value.to_owned()),
        }
    }

    /// A number carrying an explicit format request.
    pub fn formatted_number(value: Number, number_format: NumberFormat) -> (r: Value)
        ensures
            r == (Value::Number { value, format: Some(number_format) }),
    {
        Value::Number { value, format: Some(number_format) }
    }

    /// A plain text value.
    pub fn text(value: &str) -> (r: Value)
        ensures
            r matches Value::Text(s) && s@ == value@,
    {
        Value::Text(value.to_owned())
    }

    /// A plain number value without a format request.
    pub fn number(value: Number) -> (r: Value)
        ensures
            r == (Value::Number { value, format: None }),
    {
        Value::Number { value, format: None }
    }

    /// Two values are the same when both are the same text, or both are
    /// the same number whatever their format requests; absent and failed
    /// values equal nothing, not even themselves.
    pub fn equals(&self, other: &Value) -> (r: bool)
        ensures
            r == (match (*self, *other) {
                (Value::Text(a), Value::Text(b)) => a@ == b@,
                (
                    Value::Number { value: a, .. },
                    Value::Number { value: b, .. },
                ) => spec_mantissa(a) == spec_mantissa(b) && spec_scale(a) == spec_scale(b),
                _ => false,
            }),
    {
        match (self, other) {
            (Value::Text(a), Value::Text(b)) => crate::strutil::str_eq(a.as_str(), b.as_str()),
            (Value::Number { value: a, .. }, Value::Number { value: b, .. }) => a.equals(b),
            _ => false,
        }
    }

    pub fn is_string(&self) -> (r: bool)
        ensures
            r == (*self matches Value::Text(_)),
    {
        match self {
            Value::Text(_) => true,
            _ => false,
        }
    }

    pub fn is_number(&self) -> (r: bool)
        ensures
            r == (*self matches Value::Number { .. }),
    {
        match self {
            Value::Number { .. } => true,
            _ => false,
        }
    }
}

} // verus!
