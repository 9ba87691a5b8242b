use agent_shell_tools::path::{is_absolute, join, parent, same_bytes, starts_with};
use agent_shell_tools::status::{clamp_code, exit_byte, exit_code, wait_for_child, WaitStatus};
use agent_shell_tools::text::{
    is_white_space, parse_i32, push_decimal, push_signed, same_text, to_chars, to_hex, trim,
};
use std::path::{Path, PathBuf};

const PATHS: [&str; 22] = [
    "", "/", "//", "///a", ".", "./", "./a", "a", "a/", "a/.", "a/./b", "a//b", "/a", "/a/",
    "/a/b/../c", "..", "../a", "/.", "/./a", "a/..", ".hidden", "/home/dev",
];

fn as_text(path: &[u8]) -> String {
    String::from_utf8(path.to_vec()).unwrap()
}

#[test]
fn join_agrees_with_std() {
    for base in PATHS {
        for tail in PATHS {
            let ours = as_text(&join(base.as_bytes(), tail.as_bytes()));
            let std = PathBuf::from(base).join(tail);
            assert_eq!(ours, std.to_str().unwrap(), "{base:?} {tail:?}");
        }
    }
}

#[test]
fn starts_with_agrees_with_std() {
    for path in PATHS {
        for base in PATHS {
            let std = Path::new(path).starts_with(base);
            assert_eq!(starts_with(path.as_bytes(), base.as_bytes()), std, "{path:?} {base:?}");
        }
    }
}

#[test]
fn parent_agrees_with_std() {
    for path in PATHS {
        let ours = parent(path.as_bytes()).map(|p| as_text(&p));
        let std = Path::new(path).parent().map(|p| p.to_str().unwrap().to_string());
        assert_eq!(ours, std, "{path:?}");
    }
}

#[test]
fn is_absolute_agrees_with_std() {
    for path in PATHS {
        assert_eq!(is_absolute(path.as_bytes()), Path::new(path).is_absolute(), "{path:?}");
    }
}

#[test]
fn joining_stays_within() {
    for base in PATHS {
        for tail in PATHS {
            if !is_absolute(tail.as_bytes()) {
                let both = join(base.as_bytes(), tail.as_bytes());
                assert!(starts_with(&both, base.as_bytes()), "{base:?} {tail:?}");
            }
        }
    }
}

#[test]
fn paths_lie_within_their_parents() {
    for path in PATHS {
        if let Some(dir) = parent(path.as_bytes()) {
            assert!(starts_with(path.as_bytes(), &dir), "{path:?}");
        }
    }
}

#[test]
fn within_is_transitive() {
    assert!(starts_with(b"/a/b/c", b"/a/b"));
    assert!(starts_with(b"/a/b", b"/a"));
    assert!(starts_with(b"/a/b/c", b"/a"));
    assert!(!starts_with(b"/ab", b"/a"));
}

#[test]
fn bytes_and_texts_compare() {
    assert!(same_bytes(b"", b""));
    assert!(same_bytes(b"ab", b"ab"));
    assert!(!same_bytes(b"ab", b"ac"));
    assert!(!same_bytes(b"ab", b"abc"));
    assert!(same_text("größe", "größe"));
    assert!(!same_text("größe", "grosse"));
}

#[test]
fn white_space_agrees_with_std() {
    for n in 0..=0x10ffffu32 {
        if let Some(c) = char::from_u32(n) {
            assert_eq!(is_white_space(c), c.is_whitespace(), "{n:x}");
        }
    }
}

#[test]
fn trimming_agrees_with_std() {
    for text in ["", " ", " a ", "\u{2003}a b\u{3000}", "a", "\n\n", "  x  y  "] {
        let chars = to_chars(text);
        let ours: String = trim(&chars).iter().collect();
        assert_eq!(ours, text.trim());
    }
}

#[test]
fn numbers_are_written_as_std_writes_them() {
    for n in [0u64, 7, 10, 99, 100, 4194303, u64::MAX] {
        let mut out = String::from("<");
        push_decimal(&mut out, n);
        assert_eq!(out, format!("<{n}"));
    }
    for n in [0i64, -1, 42, -100, i64::MIN, i64::MAX] {
        let mut out = String::new();
        push_signed(&mut out, n);
        assert_eq!(out, n.to_string());
    }
}

#[test]
fn numbers_are_read_as_std_reads_them() {
    for text in ["0", "-5", "+8", "", "x", "12x", "2147483647", "2147483648", "-2147483648"] {
        assert_eq!(parse_i32(&to_chars(text)), text.parse::<i32>().ok(), "{text:?}");
    }
}

#[test]
fn hexadecimal_is_lower_case() {
    assert_eq!(to_hex(&[]), "");
    assert_eq!(to_hex(&[0, 0x0f, 0xf0, 0xab]), "000ff0ab");
}

#[test]
fn signal_deaths_are_reported_above_128() {
    assert_eq!(exit_code(&WaitStatus { code: Some(42), signal: None }), 42);
    assert_eq!(exit_code(&WaitStatus { code: Some(0), signal: None }), 0);
    assert_eq!(exit_code(&WaitStatus { code: None, signal: Some(libc::SIGINT) }), 130);
    assert_eq!(exit_code(&WaitStatus { code: None, signal: Some(libc::SIGKILL) }), 137);
    assert_eq!(exit_code(&WaitStatus { code: None, signal: None }), 1);
}

#[test]
fn exit_bytes_wrap() {
    for code in [0, 1, 255, 256, 257, -1, i32::MIN, i32::MAX] {
        assert_eq!(exit_byte(code), code as u8, "{code}");
    }
}

#[test]
fn clamped_codes_agree_with_std() {
    for code in [0, 1, 255, 256, -1, i32::MIN, i32::MAX] {
        assert_eq!(clamp_code(code), code.clamp(0, 255) as u8, "{code}");
    }
}

#[test]
fn a_waited_child_gives_its_code() {
    assert_eq!(wait_for_child(Some(Some(3))), 3);
    assert_eq!(wait_for_child(Some(Some(259))), 3);
    assert_eq!(wait_for_child(Some(None)), 1);
    assert_eq!(wait_for_child(None), 1);
}
