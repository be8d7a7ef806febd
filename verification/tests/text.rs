use avatarplugin::native_enum::NativeParsingError;
use avatarplugin::string::strip_nuls;
use avatarplugin::text::{chars_of, contains_str, int_to_text, parse_u32};

#[test]
fn parse_u32_follows_std() {
    for t in ["0", "30", "+7", "007", "4294967295", "4294967296", "", "+", "-1", "1a", " 1", "99999999999999999999"] {
        assert_eq!(parse_u32(t), t.parse::<u32>().ok(), "input {:?}", t);
    }
    assert_eq!(parse_u32("103"), Some(103));
    assert_eq!(parse_u32("up"), None);
}

#[test]
fn int_to_text_matches_display() {
    for v in [0i64, 7, -7, 10, 1234567890, i64::MAX, i64::MIN, -100] {
        assert_eq!(int_to_text(v), v.to_string());
    }
}

#[test]
fn contains_str_finds_substrings() {
    assert!(contains_str("assets/righthand/1.png", "righthand"));
    assert!(!contains_str("assets/lefthand/1.png", "righthand"));
    assert!(contains_str("abc", ""));
    assert!(!contains_str("ab", "abc"));
    assert_eq!(chars_of("héllo"), vec!['h', 'é', 'l', 'l', 'o']);
}

#[test]
fn strip_nuls_removes_every_nul() {
    assert_eq!(strip_nuls(vec![0, 104, 0, 105, 0]), vec![104, 105]);
    assert_eq!(strip_nuls(vec![]), Vec::<u8>::new());
    let once = strip_nuls(b"a\0b\0\0c".to_vec());
    assert_eq!(strip_nuls(once.clone()), once);
    assert!(!once.contains(&0));
}

#[test]
fn native_parsing_error_message() {
    let e = NativeParsingError::new("EncoderType", -3);
    assert_eq!(e.message(), "Failed to convert native value -3 into EncoderType");
}
