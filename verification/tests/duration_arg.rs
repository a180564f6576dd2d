use std::time::Duration;

use imp::coerce::JsType;
use imp::duration_arg::{
    check_finite_ms, coerce_js, DurationArg, DurationError, DurationValue, JsDurationArg,
    MillisNumber,
};

#[test]
fn as_millis_passthrough() {
    assert_eq!(DurationArg::Millis(42).as_millis(), 42);
}

#[test]
fn into_std_duration() {
    let d: Duration = DurationArg::Millis(250).into();
    assert_eq!(d, Duration::from_millis(250));
}

#[test]
fn zero_millis() {
    assert_eq!(DurationArg::Millis(0).as_millis(), 0);
}

#[test]
fn large_millis() {
    assert_eq!(DurationArg::Millis(u64::MAX).as_millis(), u64::MAX);
}

#[test]
fn integers_read_as_millis() {
    assert_eq!(7u64.to_duration_arg(), Ok(DurationArg::Millis(7)));
    assert_eq!(9u32.to_duration_arg(), Ok(DurationArg::Millis(9)));
    assert_eq!(11i64.to_duration_arg(), Ok(DurationArg::Millis(11)));
    assert_eq!(0i32.to_duration_arg(), Ok(DurationArg::Millis(0)));
    assert_eq!(DurationArg::Millis(3).to_duration_arg(), Ok(DurationArg::Millis(3)));
}

#[test]
fn negative_integers_are_range_errors() {
    let msg = "duration must be a non-negative integer (milliseconds)".to_string();
    assert_eq!((-1i64).to_duration_arg(), Err(DurationError::Range(msg.clone())));
    assert_eq!((-5i32).to_duration_arg(), Err(DurationError::Range(msg.clone())));
    assert_eq!(DurationValue::Int(-2).to_duration_arg(), Err(DurationError::Range(msg)));
}

#[test]
fn non_finite_numbers_are_range_errors() {
    let msg = "duration must be a non-negative finite number of milliseconds".to_string();
    assert_eq!(check_finite_ms(MillisNumber::Invalid), Err(DurationError::Range(msg.clone())));
    assert_eq!(
        DurationValue::Float(MillisNumber::Invalid).to_duration_arg(),
        Err(DurationError::Range(msg))
    );
    assert_eq!(check_finite_ms(MillisNumber::Valid(1500)), Ok(DurationArg::Millis(1500)));
}

#[test]
fn duration_objects_read_through_as_millis() {
    let v = DurationValue::Object(Some(MillisNumber::Valid(20)), JsType::Object(Some("Duration".to_string())));
    assert_eq!(v.to_duration_arg(), Ok(DurationArg::Millis(20)));
    let v = DurationValue::Object(None, JsType::Object(Some("Foo".to_string())));
    assert_eq!(
        v.to_duration_arg(),
        Err(DurationError::InvalidArgType(
            "The \"duration\" argument must be of type Duration or number. Received an instance of Foo"
                .to_string()
        ))
    );
}

#[test]
fn other_values_are_type_errors() {
    let v = DurationValue::Other(JsType::String);
    assert_eq!(
        v.to_duration_arg(),
        Err(DurationError::InvalidArgType(
            "The \"duration\" argument must be of type Duration or number. Received string".to_string()
        ))
    );
}

#[test]
fn coerce_names_the_argument() {
    let r = coerce_js(DurationValue::Int(-1), "delay", &JsType::Int(-1));
    assert_eq!(
        r,
        Err(DurationError::InvalidArgType(
            "The \"delay\" argument must be of type Duration or number. Received type number (-1)"
                .to_string()
        ))
    );
    assert_eq!(coerce_js(DurationValue::Int(5), "delay", &JsType::Int(5)), Ok(DurationArg::Millis(5)));
}
