use errno::decimal::push_decimal;
use errno::render::debug_struct;
use errno::Errno;

#[test]
fn display_is_the_description() {
    assert_eq!(Errno(1).display("strerror_r", Ok("Operation not permitted")), "Operation not permitted");
    assert_eq!(Errno(-5).display("FormatMessageW", Ok("caf\u{e9} \"quoted\"")), "caf\u{e9} \"quoted\"");
    assert_eq!(Errno(0).display("strerror_r", Ok("")), "");
}

#[test]
fn display_falls_back_to_the_codes() {
    assert_eq!(
        Errno(5).display("strerror_r", Err(Errno(22))),
        "OS error 5 (strerror_r returned error 22)"
    );
    assert_eq!(
        Errno(-3).display("FormatMessageW", Err(Errno(317))),
        "OS error -3 (FormatMessageW returned error 317)"
    );
    assert_eq!(
        Errno(i32::MIN).display("f", Err(Errno(i32::MAX))),
        "OS error -2147483648 (f returned error 2147483647)"
    );
    assert_eq!(Errno(0).display("", Err(Errno(0))), "OS error 0 ( returned error 0)");
}

#[test]
fn display_is_never_empty_for_a_failure() {
    for code in [i32::MIN, -1, 0, 1, 99999, i32::MAX] {
        for error in [i32::MIN, 0, 34, i32::MAX] {
            let shown = Errno(code).display("strerror_r", Err(Errno(error)));
            assert!(!shown.is_empty());
            assert_eq!(shown, format!("OS error {} (strerror_r returned error {})", code, error));
        }
    }
}

#[test]
fn debug_shows_code_and_description() {
    assert_eq!(
        Errno(1).debug(Ok("Operation not permitted")),
        "Errno { code: 1, description: Some(\"Operation not permitted\") }"
    );
    assert_eq!(Errno(2).debug(Err(Errno(22))), "Errno { code: 2, description: None }");
    assert_eq!(Errno(-2).debug(Ok("")), "Errno { code: -2, description: Some(\"\") }");
}

#[test]
fn debug_writes_escapes_inside_the_quotes() {
    let description = "tab\there \"quoted\" back\\slash\nline \u{7f}";
    assert_eq!(
        Errno(7).debug(Ok(description)),
        format!("Errno {{ code: 7, description: Some({:?}) }}", description)
    );
    assert_eq!(
        Errno(7).debug(Ok("a\"b")),
        "Errno { code: 7, description: Some(\"a\\\"b\") }"
    );
}

#[test]
fn debug_struct_takes_the_description_as_it_is() {
    assert_eq!(debug_struct(Errno(3), None), "Errno { code: 3, description: None }");
    assert_eq!(debug_struct(Errno(3), Some("raw")), "Errno { code: 3, description: Some(raw) }");
    assert_eq!(
        debug_struct(Errno(i32::MIN), Some("")),
        "Errno { code: -2147483648, description: Some() }"
    );
}

#[test]
fn decimal_matches_the_standard_rendering() {
    let mut samples = vec![i32::MIN, i32::MIN + 1, -1000000000, -10, -9, -1, 0, 1, 9, 10, 11, 99,
        100, 101, 1000, 99999, 1000000000, i32::MAX - 1, i32::MAX];
    let mut value: i32 = 1;
    for _ in 0..30 {
        samples.push(value);
        samples.push(-value);
        samples.push(value - 1);
        value = value.wrapping_mul(2);
    }
    for sample in samples {
        let mut text = String::from("n=");
        push_decimal(&mut text, sample);
        assert_eq!(text, format!("n={}", sample));
    }
}

#[test]
fn decimal_of_given_values() {
    let mut text = String::new();
    push_decimal(&mut text, 0);
    assert_eq!(text, "0");
    push_decimal(&mut text, -120);
    assert_eq!(text, "0-120");
    push_decimal(&mut text, 2147483647);
    assert_eq!(text, "0-1202147483647");
}
