use vstd::prelude::*;

use crate::coerce::{arg_type_message, arg_type_message_spec, js_type_of, type_text, CoerceError, JsType};
use crate::rs_string::RsString;

verus! {

/// A string argument: either a plain string or a string view.
pub enum StringArg {
    JsString(String),
    RsString(RsString),
}

impl View for StringArg {
    type V = Seq<char>;

    open spec fn view(&self) -> Seq<char> {
        match self {
            StringArg::JsString(s) => s@,
            StringArg::RsString(rs) => rs@,
        }
    }
}

impl StringArg {
    /// The chars of the argument.
    pub fn as_str(&self) -> (s: &str)
        ensures
            s@ == self@,
    {
        match self {
            StringArg::JsString(s) => s.as_str(),
            StringArg::RsString(rs) => rs.get_slice(),
        }
    }
}

/// A value that can be read as a [`StringArg`].
pub trait JsStringArg: Sized {
    fn to_string_arg(self) -> Result<StringArg, CoerceError>;
}

impl JsStringArg for String {
    fn to_string_arg(self) -> (r: Result<StringArg, CoerceError>)
        ensures
            r matches Ok(a) && a@ == self@ && a is JsString,
    {
        Ok(StringArg::JsString(self))
    }
}

impl JsStringArg for RsString {
    fn to_string_arg(self) -> (r: Result<StringArg, CoerceError>)
        ensures
            r matches Ok(a) && a@ == self@ && a is RsString,
    {
        Ok(StringArg::RsString(self))
    }
}

impl JsStringArg for StringArg {
    fn to_string_arg(self) -> (r: Result<StringArg, CoerceError>)
        ensures
            r matches Ok(a) && a == self,
    {
        Ok(self)
    }
}

/// A script value that a string argument is read from: a string, a string
/// view object, another object, or any other value.
pub enum StringValue {
    Str(String),
    View(RsString),
    Object,
    Other,
}

impl JsStringArg for StringValue {
    fn to_string_arg(self) -> (r: Result<StringArg, CoerceError>)
        ensures
            match self {
                StringValue::Str(s) => r matches Ok(a) && a is JsString && a@ == s@,
                StringValue::View(v) => r matches Ok(a) && a is RsString && a@ == v@,
                _ => r is Err,
            },
    {
        match self {
            StringValue::Str(s) => Ok(StringArg::JsString(s)),
            StringValue::View(v) => Ok(StringArg::RsString(v)),
            StringValue::Object => Err(CoerceError),
            StringValue::Other => Err(CoerceError),
        }
    }
}

/// Why an argument was refused.
#[derive(Debug, Clone, PartialEq, Eq)]
pub enum ArgError {
    /// A `TypeError` with code `ERR_INVALID_ARG_TYPE` and this message.
    InvalidArgType(String),
}

/// Reads argument `name` as a string: anything but a string or a string
/// view is an `ERR_INVALID_ARG_TYPE` error naming the argument and the type
/// received.
pub fn coerce_js(v: StringValue, name: &str, received: &JsType) -> (r: Result<StringArg, ArgError>)
    ensures
        match v {
            StringValue::Str(s) => r matches Ok(a) && a@ == s@,
            StringValue::View(x) => r matches Ok(a) && a@ == x@,
            _ => r matches Err(ArgError::InvalidArgType(m)) && m@ == arg_type_message_spec(
                name@,
                "string"@,
                type_text(*received),
            ),
        },
{
    match v.to_string_arg() {
        Ok(a) => Ok(a),
        Err(_) => {
            let t = js_type_of(received);
            Err(ArgError::InvalidArgType(arg_type_message(name, "string", t.as_str())))
        },
    }
}

} // verus!
