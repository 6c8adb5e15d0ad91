use sysmon::line::{encode, push_float_field, push_integer_field, push_tag};

#[test]
fn tag_is_key_and_value() {
    let mut out = String::new();
    push_tag(&mut out, "mount", "/home");
    assert_eq!(out, "mount=/home");
}

#[test]
fn integer_field_carries_its_suffix() {
    let mut out = String::new();
    push_integer_field(&mut out, "total_space", 200);
    assert_eq!(out, "total_space=200i");
    out.push(',');
    push_integer_field(&mut out, "free", u64::MAX);
    assert_eq!(out, "total_space=200i,free=18446744073709551615i");
}

#[test]
fn float_field_carries_no_suffix() {
    let mut out = String::new();
    push_float_field(&mut out, "temperature", "45.5");
    assert_eq!(out, "temperature=45.5");
}

#[test]
fn line_has_three_parts_and_a_timestamp() {
    assert_eq!(
        encode("m", "a=1,b=2", "x=1i,y=2.5", 1700000000123),
        "m,a=1,b=2 x=1i,y=2.5 1700000000123"
    );
}
