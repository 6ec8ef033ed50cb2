use edgeprint::escape::{format_bytes, format_string};

#[test]
fn escape_string_plain() {
    assert_eq!(format_string("hello", false), "'hello'");
}

#[test]
fn escape_string_empty() {
    assert_eq!(format_string("", false), "''");
}

#[test]
fn escape_string_quote_and_backslash() {
    assert_eq!(format_string("it's \\", false), "'it\\'s \\\\'");
}

#[test]
fn escape_string_control_whitespace_compact() {
    assert_eq!(format_string("\x07\n\t\r", false), "'\\x07\\n\\t\\r'");
}

#[test]
fn escape_string_control_whitespace_expanded() {
    assert_eq!(format_string("\x07\n\t\r", true), "'\\x07\n\t\r'");
}

#[test]
fn escape_string_delete_and_c1() {
    assert_eq!(format_string("\x7f", false), "'\\x7f'");
    assert_eq!(format_string("\u{0085}", false), "'\\u0085'");
    assert_eq!(format_string("\u{009f}", false), "'\\u009f'");
}

#[test]
fn escape_string_distinct_inputs_distinct_outputs() {
    let inputs = ["a", "\\a", "\\\\a", "'", "\\'", "\n", "\\n", "\\\n", "x", ""];
    for (i, a) in inputs.iter().enumerate() {
        for (j, b) in inputs.iter().enumerate() {
            if i != j {
                assert_ne!(format_string(a, false), format_string(b, false));
            }
        }
    }
}

#[test]
fn escape_bytes_apostrophe() {
    assert_eq!(format_bytes(b"it's"), "b'it\\'s'");
}

#[test]
fn escape_bytes_bell() {
    assert_eq!(format_bytes(&[0x07]), "b'\\x07'");
}

#[test]
fn escape_bytes_whitespace_and_backslash() {
    assert_eq!(format_bytes(b"\r\n\t\\"), "b'\\r\\n\\t\\\\'");
}

#[test]
fn escape_bytes_high_and_printable() {
    assert_eq!(format_bytes(&[0xff, 0x41, 0x7f, 0x20]), "b'\\xffA\\x7f '");
}

#[test]
fn escape_bytes_empty() {
    assert_eq!(format_bytes(&[]), "b''");
}

#[test]
fn escape_string_multibyte_passthrough() {
    assert_eq!(format_string("héllo ☃", false), "'héllo ☃'");
}
