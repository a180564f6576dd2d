use imp::convert::{
    assertion_message, assertion_report, convert_to_string, format_number, format_one, js_string, JsValue,
};

fn s(x: &str) -> String {
    x.to_string()
}

fn show(v: JsValue, depth: usize, quote: bool) -> String {
    let mut out = String::new();
    format_one(&v, depth, quote, &mut out);
    out
}

#[test]
fn primitives() {
    let args = vec![
        JsValue::Undefined,
        JsValue::Null,
        JsValue::Bool(true),
        JsValue::Bool(false),
        JsValue::Int(-42),
        JsValue::Float(s("1.5")),
        JsValue::Str(s("hi")),
    ];
    assert_eq!(convert_to_string(&args, 2, false), "undefined null true false -42 1.5 hi");
    assert_eq!(show(JsValue::Int(i32::MIN), 0, false), "-2147483648");
    assert_eq!(show(JsValue::Int(0), 0, false), "0");
}

#[test]
fn strings_are_quoted_and_escaped_on_request() {
    assert_eq!(show(JsValue::Str(s("a\"b\nc")), 1, true), "\"a\\\"b\\nc\"");
    assert_eq!(show(JsValue::Str(s("a\"b")), 1, false), "a\"b");
    assert_eq!(show(JsValue::View(s("a\"b")), 1, true), "\"a\"b\"");
    assert_eq!(show(JsValue::View(s("v")), 1, false), "v");
}

#[test]
fn functions_by_name() {
    assert_eq!(show(JsValue::Function(Some(s("f"))), 1, false), "Function f");
    assert_eq!(show(JsValue::Function(None), 1, false), "Function anonymous");
}

#[test]
fn arrays_quote_their_elements_and_stop_at_depth() {
    let arr = JsValue::Array(vec![JsValue::Str(s("x")), JsValue::Int(1), JsValue::Array(vec![JsValue::Null])]);
    assert_eq!(show(arr, 1, false), "[ \"x\", 1, [ ... ] ]");
    let arr = JsValue::Array(vec![JsValue::Array(vec![JsValue::Null])]);
    assert_eq!(show(arr, 2, false), "[ [ null ] ]");
    assert_eq!(show(JsValue::Array(vec![]), 1, false), "[  ]");
    assert_eq!(show(JsValue::Array(vec![JsValue::Null]), 0, false), "[ ... ]");
}

#[test]
fn maps_sets_objects() {
    let m = JsValue::MapObject(2, vec![(JsValue::Str(s("a")), JsValue::Int(1)), (JsValue::Int(2), JsValue::Bool(true))]);
    assert_eq!(show(m, 1, false), "Map(2) { \"a\" => 1, 2 => true }");
    assert_eq!(show(JsValue::MapObject(3, vec![]), 0, false), "Map(3) { ... }");
    let st = JsValue::SetObject(1, vec![JsValue::Str(s("v"))]);
    assert_eq!(show(st, 1, false), "Set(1) { \"v\" }");
    let o = JsValue::Object(vec![(s("k"), JsValue::Str(s("v"))), (s("n"), JsValue::Int(3))]);
    assert_eq!(show(o, 1, false), "{ k: \"v\", n: 3 }");
    assert_eq!(show(JsValue::Object(vec![]), 0, false), "{ ... }");
}

#[test]
fn dates_errors_promises() {
    assert_eq!(show(JsValue::Date(Some(s("2024-01-01T00:00:00.000Z"))), 1, false), "Date(2024-01-01T00:00:00.000Z)");
    assert_eq!(show(JsValue::Date(None), 1, false), "Date(Invalid)");
    assert_eq!(show(JsValue::Error(Some(s("Error: boom"))), 1, false), "Error: boom");
    assert_eq!(show(JsValue::Error(None), 1, false), "Error");
    assert_eq!(show(JsValue::PromisePending, 1, false), "Promise { 'pending' }");
    assert_eq!(show(JsValue::PromiseUnknown, 1, false), "Promise { }");
    assert_eq!(show(JsValue::PromiseResolved(Some(Box::new(JsValue::Str(s("ok"))))), 1, false), "Promise { \"ok\" }");
    assert_eq!(show(JsValue::PromiseResolved(None), 1, false), "Promise { }");
    assert_eq!(show(JsValue::PromiseResolved(Some(Box::new(JsValue::Null))), 0, false), "Promise { ... }");
    assert_eq!(
        show(JsValue::PromiseRejected(Some(Box::new(JsValue::Error(Some(s("Error: no")))))), 1, false),
        "Promise { <rejected> Error: no }"
    );
    assert_eq!(show(JsValue::PromiseRejected(None), 1, false), "Promise { <rejected> }");
    assert_eq!(show(JsValue::Unknown, 1, false), "[object/unknown]");
}

#[test]
fn trailing_whitespace_is_dropped() {
    assert_eq!(convert_to_string(&vec![JsValue::Str(s("a  \n"))], 1, false), "a");
    assert_eq!(convert_to_string(&vec![], 1, false), "");
    assert_eq!(convert_to_string(&vec![JsValue::Str(s(" a"))], 1, true), "\" a\"");
}

#[test]
fn js_string_escapes() {
    assert_eq!(js_string("a\"b\\c\n\r\t"), "a\\\"b\\\\c\\n\\r\\t");
    assert_eq!(js_string("plain"), "plain");
}

#[test]
fn assertion_messages() {
    assert_eq!(assertion_message(&vec![]), "assertion failed");
    assert_eq!(
        assertion_message(&vec![JsValue::Str(s("bad")), JsValue::Array(vec![JsValue::Array(vec![JsValue::Array(vec![JsValue::Array(vec![])])])])]),
        "bad [ [ [ [ ... ] ] ] ]"
    );
    assert_eq!(assertion_report("m", "  at x"), "ASSERTION FAILED: m\n  at x");
}

#[test]
fn numbers() {
    let mut out = String::new();
    format_number(&JsValue::Int(1234567), &mut out);
    format_number(&JsValue::Float(s("0.25")), &mut out);
    assert_eq!(out, "12345670.25");
}
