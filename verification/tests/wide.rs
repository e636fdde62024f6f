use errno::windows::{from_utf16_lossy, with_description, MESSAGE_CAPACITY, STRERROR_NAME};
use errno::Errno;

fn wide(text: &str) -> Vec<u16> {
    text.encode_utf16().collect()
}

fn describe(message: &[u16], mechanism_error: i32) -> Result<String, i32> {
    with_description(message, Errno(mechanism_error), |description| {
        description.map(|text| text.to_string()).map_err(|error| error.0)
    })
}

#[test]
fn names_and_sizes_of_the_formatter() {
    assert_eq!(STRERROR_NAME, "FormatMessageW");
    assert_eq!(MESSAGE_CAPACITY, 2048);
}

#[test]
fn incorrect_function_without_line_end() {
    let code = Errno(1);
    let message = wide("Incorrect function.\r\n");
    let shown = with_description(&message, Errno(0), |d| code.display(STRERROR_NAME, d));
    assert_eq!(shown, "Incorrect function.");
    let debugged = with_description(&message, Errno(0), |d| code.debug(d));
    assert_eq!(debugged, "Errno { code: 1, description: Some(\"Incorrect function.\") }");
}

#[test]
fn nothing_written_is_a_failure() {
    assert_eq!(describe(&[], 317), Err(317));
    assert_eq!(describe(&[], 0), Err(0));
    let code = Errno(99999);
    let shown = with_description(&[], Errno(317), |d| code.display(STRERROR_NAME, d));
    assert_eq!(shown, "OS error 99999 (FormatMessageW returned error 317)");
    let debugged = with_description(&[], Errno(317), |d| code.debug(d));
    assert_eq!(debugged, "Errno { code: 99999, description: None }");
}

#[test]
fn a_written_message_is_never_a_failure() {
    assert_eq!(describe(&[0], 5), Ok(String::new()));
    assert_eq!(describe(&wide("\r\n"), 5), Ok(String::new()));
    assert_eq!(describe(&[0xD800], 5), Ok("\u{FFFD}".to_string()));
}

#[test]
fn converts_plain_text() {
    let input = wide("Incorrect function.\r\n");
    let mut output = [0xAAu8; 64];
    let (consumed, written) = from_utf16_lossy(&input, &mut output);
    assert_eq!(consumed, input.len());
    assert_eq!(written, 21);
    assert_eq!(&output[..written], b"Incorrect function.\r\n");
    assert!(output[written..].iter().all(|b| *b == 0xAA));
}

#[test]
fn converts_every_width() {
    let text = "a\u{e9}\u{20ac}\u{1F600}";
    let input = wide(text);
    assert_eq!(input.len(), 5);
    let mut output = [0u8; 16];
    let (consumed, written) = from_utf16_lossy(&input, &mut output);
    assert_eq!((consumed, written), (5, 10));
    assert_eq!(&output[..written], text.as_bytes());
    assert_eq!(
        &output[..written],
        &[0x61, 0xC3, 0xA9, 0xE2, 0x82, 0xAC, 0xF0, 0x9F, 0x98, 0x80]
    );
}

#[test]
fn unpaired_surrogates_become_replacement_characters() {
    let input = [0x41, 0xD83D, 0x42, 0xDE00, 0xDC00, 0xD800];
    let mut output = [0u8; 32];
    let (consumed, written) = from_utf16_lossy(&input, &mut output);
    assert_eq!(consumed, input.len());
    assert_eq!(
        std::str::from_utf8(&output[..written]),
        Ok("A\u{FFFD}B\u{FFFD}\u{FFFD}\u{FFFD}")
    );
    assert_eq!(
        String::from_utf8_lossy(&output[..written]),
        String::from_utf16_lossy(&input)
    );
}

#[test]
fn conversion_ends_before_the_first_nul() {
    let mut input = wide("Access");
    input.push(0);
    input.extend(wide(" is denied."));
    let mut output = [0x55u8; 32];
    let (consumed, written) = from_utf16_lossy(&input, &mut output);
    assert_eq!((consumed, written), (input.len(), 6));
    assert_eq!(&output[..written], b"Access");
    assert_eq!(output[written], 0x55);
    assert_eq!(describe(&input, 0), Ok("Access".to_string()));
}

#[test]
fn a_character_is_written_whole_or_not_at_all() {
    let input = wide("ab\u{20ac}cd");
    for (capacity, consumed, written) in
        [(0, 0, 0), (1, 1, 1), (2, 2, 2), (3, 2, 2), (4, 2, 2), (5, 3, 5), (6, 4, 6), (7, 5, 7)]
    {
        let mut output = vec![0x11u8; capacity];
        let result = from_utf16_lossy(&input, &mut output);
        assert_eq!(result, (consumed, written), "capacity {}", capacity);
        assert_eq!(&output[..result.1], &"ab\u{20ac}cd".as_bytes()[..result.1]);
        assert!(std::str::from_utf8(&output[..result.1]).is_ok());
        assert!(output[result.1..].iter().all(|b| *b == 0x11));
    }
}

#[test]
fn position_of_the_character_that_did_not_fit() {
    let input = [0x41, 0xD83D, 0xDE00, 0xD83D, 0xDE01, 0x42];
    let mut output = [0u8; 8];
    let (consumed, written) = from_utf16_lossy(&input, &mut output);
    assert_eq!((consumed, written), (3, 5));
    assert_eq!(&output[..written], "A\u{1F600}".as_bytes());
    assert_eq!(&output[written..], &[0, 0, 0]);
}

#[test]
fn empty_input_and_empty_output() {
    let mut output = [7u8; 4];
    assert_eq!(from_utf16_lossy(&[], &mut output), (0, 0));
    assert_eq!(output, [7u8; 4]);
    let mut nothing: [u8; 0] = [];
    assert_eq!(from_utf16_lossy(&wide("x"), &mut nothing), (0, 0));
    assert_eq!(from_utf16_lossy(&[], &mut nothing), (0, 0));
}

#[test]
fn long_messages_are_cut_at_the_capacity() {
    let message = wide(&"\u{e9}".repeat(MESSAGE_CAPACITY));
    assert_eq!(describe(&message, 0), Ok("\u{e9}".repeat(MESSAGE_CAPACITY / 2)));
    let mut odd = wide("x");
    odd.extend(wide(&"\u{e9}".repeat(MESSAGE_CAPACITY)));
    let mut expected = "x".to_string();
    expected.push_str(&"\u{e9}".repeat((MESSAGE_CAPACITY - 1) / 2));
    assert_eq!(expected.len(), MESSAGE_CAPACITY - 1);
    assert_eq!(describe(&odd, 0), Ok(expected));
    let spaced = wide(&format!("{}{}", "y".repeat(MESSAGE_CAPACITY - 3), "   tail"));
    assert_eq!(describe(&spaced, 0), Ok("y".repeat(MESSAGE_CAPACITY - 3)));
}

#[test]
fn trailing_white_space_of_wide_text_is_left_out() {
    assert_eq!(describe(&wide("The system cannot find the file specified.\r\n"), 0),
        Ok("The system cannot find the file specified.".to_string()));
    assert_eq!(describe(&wide(" \t padded \u{2003}\u{85}"), 0), Ok(" \t padded".to_string()));
}

#[test]
fn lossy_conversion_matches_the_standard_library() {
    let units = [
        0x0001, 0x0041, 0x007F, 0x0080, 0x07FF, 0x0800, 0xD7FF, 0xD800, 0xDBFF, 0xDC00, 0xDFFF,
        0xE000, 0xFFFD, 0xFFFF,
    ];
    for a in units {
        for b in units {
            for c in units {
                let input = [a, b, c];
                let mut output = [0u8; 16];
                let (consumed, written) = from_utf16_lossy(&input, &mut output);
                assert_eq!(consumed, 3);
                assert_eq!(
                    std::str::from_utf8(&output[..written]),
                    Ok(String::from_utf16_lossy(&input).as_str()),
                    "{:04X?}",
                    input
                );
            }
        }
    }
}
