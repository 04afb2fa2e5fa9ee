use jira_summary::text::{push_signed, push_str, push_unsigned};

#[test]
fn decimal_of_signed_values() {
    for (v, t) in [
        (0i64, "0"),
        (7, "7"),
        (10, "10"),
        (-42, "-42"),
        (2147483647, "2147483647"),
        (i64::MAX, "9223372036854775807"),
        (i64::MIN, "-9223372036854775808"),
    ] {
        let mut s = String::from("x=");
        push_signed(&mut s, v);
        assert_eq!(s, format!("x={}", t));
    }
}

#[test]
fn decimal_of_unsigned_values() {
    let mut s = String::new();
    push_unsigned(&mut s, u64::MAX);
    assert_eq!(s, "18446744073709551615");
}

#[test]
fn push_str_appends() {
    let mut s = String::from("ab");
    push_str(&mut s, "cd");
    assert_eq!(s, "abcd");
}
