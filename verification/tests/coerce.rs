use imp::coerce::{arg_type_message, extract_trace, js_type_of, JsType};
use imp::rs_string::RsString;
use imp::string_arg::{coerce_js, ArgError, JsStringArg, StringArg, StringValue};

#[test]
fn type_descriptions() {
    assert_eq!(js_type_of(&JsType::Null), "null");
    assert_eq!(js_type_of(&JsType::Undefined), "undefined");
    assert_eq!(js_type_of(&JsType::Bool(true)), "type boolean (true)");
    assert_eq!(js_type_of(&JsType::Int(-3)), "type number (-3)");
    assert_eq!(js_type_of(&JsType::Float("2.5".to_string())), "type number (2.5)");
    assert_eq!(js_type_of(&JsType::String), "string");
    assert_eq!(js_type_of(&JsType::Symbol), "symbol");
    assert_eq!(js_type_of(&JsType::BigInt), "type bigint");
    assert_eq!(js_type_of(&JsType::Function), "function");
    assert_eq!(js_type_of(&JsType::Array), "an instance of Array");
    assert_eq!(js_type_of(&JsType::Object(Some("Map".to_string()))), "an instance of Map");
    assert_eq!(js_type_of(&JsType::Object(Some(String::new()))), "an instance of Object");
    assert_eq!(js_type_of(&JsType::Object(None)), "an instance of Object");
    assert_eq!(js_type_of(&JsType::Exception), "exception");
    assert_eq!(js_type_of(&JsType::Module), "module");
    assert_eq!(js_type_of(&JsType::Unknown), "unknown");
}

#[test]
fn arg_type_messages() {
    assert_eq!(
        arg_type_message("path", "string", "type number (1)"),
        "The \"path\" argument must be of type string. Received type number (1)"
    );
}

#[test]
fn traces_drop_their_first_line() {
    let stack = "Error\n    at foo (a.js:1)\n    at bar (b.js:2)\n".to_string();
    assert_eq!(extract_trace(Some(stack)), "    at foo (a.js:1)\n    at bar (b.js:2)");
    assert_eq!(extract_trace(Some("Error".to_string())), "");
    assert_eq!(extract_trace(Some("Error\r\nline\r\n".to_string())), "line");
    assert_eq!(extract_trace(Some("E\n\nx".to_string())), "\nx");
    assert_eq!(extract_trace(None), "No stack trace available");
}

#[test]
fn string_arguments() {
    let a = coerce_js(StringValue::Str("x".to_string()), "path", &JsType::String).ok().unwrap();
    assert_eq!(a.as_str(), "x");
    let v = RsString::owned("view".to_string()).slice(1, None);
    let b = coerce_js(StringValue::View(v), "path", &JsType::Object(Some("RsString".to_string()))).ok().unwrap();
    assert!(matches!(b, StringArg::RsString(_)));
    assert_eq!(b.as_str(), "iew");
    let e = coerce_js(StringValue::Other, "path", &JsType::Int(3)).err().unwrap();
    assert_eq!(
        e,
        ArgError::InvalidArgType("The \"path\" argument must be of type string. Received type number (3)".to_string())
    );
    assert!(StringValue::Object.to_string_arg().is_err());
    assert_eq!("s".to_string().to_string_arg().ok().unwrap().as_str(), "s");
}
