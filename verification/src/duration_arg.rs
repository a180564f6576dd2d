use std::time::Duration;

use vstd::prelude::*;

use crate::coerce::{arg_type_message, arg_type_message_spec, js_type_of, type_text, JsType};
use crate::duration::{duration_from_millis, millis_duration};

verus! {

/// A duration handed in from script code, in milliseconds.
///
/// Accepts either a number (milliseconds) or a `Duration`-like object that
/// exposes `asMillis()`. Strings are not accepted here.
#[derive(Debug, Clone, Copy, PartialEq, Eq, Hash)]
pub enum DurationArg {
    Millis(u64),
}

impl DurationArg {
    /// The number of milliseconds.
    pub fn as_millis(&self) -> (m: u64)
        ensures
            m == self->Millis_0,
    {
        match self {
            DurationArg::Millis(m) => *m,
        }
    }
}

impl vstd::std_specs::convert::FromSpecImpl<DurationArg> for Duration {
    open spec fn obeys_from_spec() -> bool {
        true
    }

    open spec fn from_spec(v: DurationArg) -> Duration {
        millis_duration(v->Millis_0)
    }
}

impl From<DurationArg> for Duration {
    fn from(arg: DurationArg) -> (d: Duration) {
        duration_from_millis(arg.as_millis())
    }
}

/// Why a value could not be read as a duration.
#[derive(Debug, Clone, PartialEq, Eq)]
pub enum DurationError {
    /// A `RangeError` with code `ERR_INVALID_ARG_VALUE` and this message.
    Range(String),
    /// A `TypeError` with code `ERR_INVALID_ARG_TYPE` and this message.
    InvalidArgType(String),
}

/// A value that can be read as a [`DurationArg`].
pub trait JsDurationArg: Sized {
    fn to_duration_arg(self) -> Result<DurationArg, DurationError>;
}

pub open spec fn negative_integer_text() -> Seq<char> {
    "duration must be a non-negative integer (milliseconds)"@
}

pub open spec fn non_finite_text() -> Seq<char> {
    "duration must be a non-negative finite number of milliseconds"@
}

/// The error for a negative integer.
pub open spec fn negative_integer_error(r: Result<DurationArg, DurationError>) -> bool {
    r matches Err(DurationError::Range(m)) && m@ == negative_integer_text()
}

/// The message for a negative integer duration.
pub fn negative_integer_message() -> (s: String)
    ensures
        s@ == negative_integer_text(),
{
    String::from_str("duration must be a non-negative integer (milliseconds)")
}

/// A number of milliseconds as the caller found it: a non-negative finite
/// number (cut to an integer), or a negative, infinite or NaN one.
#[derive(Debug, Clone, Copy, PartialEq, Eq, Structural)]
pub enum MillisNumber {
    Valid(u64),
    Invalid,
}

/// Reads a non-integer number of milliseconds.
pub fn check_finite_ms(n: MillisNumber) -> (r: Result<DurationArg, DurationError>)
    ensures
        n matches MillisNumber::Valid(m) ==> r == Ok::<DurationArg, DurationError>(DurationArg::Millis(m)),
        n is Invalid ==> (r matches Err(DurationError::Range(msg)) && msg@ == non_finite_text()),
{
    match n {
        MillisNumber::Valid(m) => Ok(DurationArg::Millis(m)),
        MillisNumber::Invalid => Err(
            DurationError::Range(String::from_str("duration must be a non-negative finite number of milliseconds")),
        ),
    }
}

/// A script value that a duration is read from.
pub enum DurationValue {
    /// An integer number.
    Int(i32),
    /// Another number.
    Float(MillisNumber),
    /// An object: what its `asMillis()` returned (`None` where the call
    /// failed), and its type.
    Object(Option<MillisNumber>, JsType),
    /// Any other value, and its type.
    Other(JsType),
}

/// The message when a value is no duration:
/// `The "<name>" argument must be of type Duration or number. Received <received>`.
pub open spec fn not_a_duration_text(name: Seq<char>, received: JsType) -> Seq<char> {
    arg_type_message_spec(name, "Duration or number"@, type_text(received))
}

/// What reading `v` as a duration gives.
pub open spec fn value_duration(v: DurationValue, r: Result<DurationArg, DurationError>) -> bool {
    match v {
        DurationValue::Int(n) => if n < 0 {
            negative_integer_error(r)
        } else {
            r == Ok::<DurationArg, DurationError>(DurationArg::Millis(n as u64))
        },
        DurationValue::Float(m) | DurationValue::Object(Some(m), _) => match m {
            MillisNumber::Valid(ms) => r == Ok::<DurationArg, DurationError>(DurationArg::Millis(ms)),
            MillisNumber::Invalid => r matches Err(DurationError::Range(msg)) && msg@ == non_finite_text(),
        },
        DurationValue::Object(None, t) | DurationValue::Other(t) => r matches Err(
            DurationError::InvalidArgType(msg),
        ) && msg@ == not_a_duration_text("duration"@, t),
    }
}

fn not_a_duration(name: &str, t: &JsType) -> (e: DurationError)
    ensures
        e matches DurationError::InvalidArgType(m) && m@ == not_a_duration_text(name@, *t),
{
    let received = js_type_of(t);
    DurationError::InvalidArgType(arg_type_message(name, "Duration or number", received.as_str()))
}

impl JsDurationArg for DurationValue {
    fn to_duration_arg(self) -> (r: Result<DurationArg, DurationError>)
        ensures
            value_duration(self, r),
    {
        match self {
            DurationValue::Int(n) => {
                if n < 0 {
                    return Err(DurationError::Range(negative_integer_message()));
                }
                Ok(DurationArg::Millis(n as u64))
            },
            DurationValue::Float(m) => check_finite_ms(m),
            DurationValue::Object(Some(m), _) => check_finite_ms(m),
            DurationValue::Object(None, t) => Err(not_a_duration("duration", &t)),
            DurationValue::Other(t) => Err(not_a_duration("duration", &t)),
        }
    }
}

/// Reads argument `name` as a duration: any failure becomes an
/// `ERR_INVALID_ARG_TYPE` error naming the argument and the type received.
pub fn coerce_js(v: DurationValue, name: &str, received: &JsType) -> (r: Result<DurationArg, DurationError>)
    ensures
        (exists|a: DurationArg| value_duration(v, Ok(a))) ==> value_duration(v, r),
        !(exists|a: DurationArg| value_duration(v, Ok(a))) ==> (r matches Err(DurationError::InvalidArgType(m))
            && m@ == not_a_duration_text(name@, *received)),
{
    let ghost v0 = v;
    match v.to_duration_arg() {
        Ok(a) => {
            assert(value_duration(v0, Ok(a)));
            Ok(a)
        },
        Err(_) => Err(not_a_duration(name, received)),
    }
}

impl JsDurationArg for u64 {
    fn to_duration_arg(self) -> (r: Result<DurationArg, DurationError>)
        ensures
            r == Ok::<DurationArg, DurationError>(DurationArg::Millis(self)),
    {
        Ok(DurationArg::Millis(self))
    }
}

impl JsDurationArg for i64 {
    fn to_duration_arg(self) -> (r: Result<DurationArg, DurationError>)
        ensures
            self < 0 ==> negative_integer_error(r),
            self >= 0 ==> r == Ok::<DurationArg, DurationError>(DurationArg::Millis(self as u64)),
    {
        if self < 0 {
            return Err(DurationError::Range(negative_integer_message()));
        }
        Ok(DurationArg::Millis(self as u64))
    }
}

impl JsDurationArg for u32 {
    fn to_duration_arg(self) -> (r: Result<DurationArg, DurationError>)
        ensures
            r == Ok::<DurationArg, DurationError>(DurationArg::Millis(self as u64)),
    {
        Ok(DurationArg::Millis(self as u64))
    }
}

impl JsDurationArg for i32 {
    fn to_duration_arg(self) -> (r: Result<DurationArg, DurationError>)
        ensures
            self < 0 ==> negative_integer_error(r),
            self >= 0 ==> r == Ok::<DurationArg, DurationError>(DurationArg::Millis(self as u64)),
    {
        if self < 0 {
            return Err(DurationError::Range(negative_integer_message()));
        }
        Ok(DurationArg::Millis(self as u64))
    }
}

impl JsDurationArg for DurationArg {
    fn to_duration_arg(self) -> (r: Result<DurationArg, DurationError>)
        ensures
            r == Ok::<DurationArg, DurationError>(self),
    {
        Ok(self)
    }
}

} // verus!
