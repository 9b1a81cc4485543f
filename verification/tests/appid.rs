use tbg_lite::appid::{
    group_aumid, is_group_aumid, strip_suffix, suffixed_aumid, validate_aumid_value, AUMID_MAX_LEN,
    SUFFIX_MARKER,
};

#[test]
fn group_aumid_accepts_valid_names() {
    assert_eq!(group_aumid("work").unwrap(), "TBG.Group.work");
    assert_eq!(group_aumid("a.b_c-9").unwrap(), "TBG.Group.a.b_c-9");
    assert_eq!(
        group_aumid(&"x".repeat(32)).unwrap(),
        format!("TBG.Group.{}", "x".repeat(32))
    );
}

#[test]
fn group_aumid_rejects_bad_names() {
    assert!(group_aumid("").is_err());
    assert!(group_aumid(&"x".repeat(33)).is_err());
    assert!(group_aumid("has space").is_err());
    assert!(group_aumid("中文").is_err());
    assert!(group_aumid("tab\there").is_err());
}

#[test]
fn group_aumid_error_names_the_name() {
    assert_eq!(
        group_aumid("has space").unwrap_err(),
        "invalid group name 'has space' (allowed: 1-32 chars of A-Z a-z 0-9 . _ -)"
    );
}

#[test]
fn is_group_aumid_basic() {
    assert!(is_group_aumid("TBG.Group.work"));
    assert!(!is_group_aumid("TBG.Group."));
    assert!(!is_group_aumid("Microsoft.Notepad"));
    assert!(!is_group_aumid(""));
}

#[test]
fn suffixed_and_strip_roundtrip() {
    let h: usize = 0x20176;
    let s = suffixed_aumid("Microsoft.Notepad", h);
    assert!(!s.truncated);
    assert_eq!(s.value, "Microsoft.Notepad~TBG~w20176");
    assert_eq!(strip_suffix(&s.value, h), Some("Microsoft.Notepad"));
    assert_eq!(strip_suffix(&s.value, 0x99999), None);
}

#[test]
fn strip_suffix_rejects_fake_markers() {
    let h: usize = 0xABC;
    assert_eq!(strip_suffix("app~TBG~wg00", h), None);
    assert_eq!(strip_suffix("app~TBG~w", h), None);
    let long = format!("app~TBG~w{}F", "0".repeat(16));
    assert_eq!(strip_suffix(&long, h), None);
    assert_eq!(strip_suffix("Microsoft.Notepad", h), None);
    assert_eq!(strip_suffix("app~TBG~wABD", h), None);
}

#[test]
fn strip_suffix_empty_original_means_clear() {
    let h: usize = 0x5AC;
    let s = suffixed_aumid("", h);
    assert_eq!(s.value, "~TBG~w5AC");
    assert_eq!(strip_suffix(&s.value, h), Some(""));
}

#[test]
fn strip_suffix_takes_the_last_marker() {
    assert_eq!(strip_suffix("a~TBG~w1~TBG~w2", 2), Some("a~TBG~w1"));
    assert_eq!(strip_suffix("a~TBG~w2~TBG~w1", 2), None);
}

#[test]
fn suffixed_aumid_truncates_by_utf16_units() {
    let h: usize = 0xFF;
    let emoji = "\u{1F600}".repeat(4);
    assert_eq!(emoji.encode_utf16().count(), 8);
    let s = suffixed_aumid(&emoji, h);
    assert!(!s.truncated);
    let long = "a".repeat(200);
    let s2 = suffixed_aumid(&long, h);
    assert!(s2.truncated);
    let keep = AUMID_MAX_LEN - SUFFIX_MARKER.len() - 2;
    assert_eq!(s2.value.encode_utf16().count(), AUMID_MAX_LEN);
    assert!(s2.value.ends_with("~TBG~wFF"));
    assert_eq!(&s2.value[..keep], "a".repeat(keep));
}

#[test]
fn suffixed_aumid_replaces_half_a_surrogate_pair() {
    let h: usize = 0xFF;
    let keep = AUMID_MAX_LEN - SUFFIX_MARKER.len() - 2;
    let original = format!("{}{}", "a".repeat(keep - 1), "\u{1F600}");
    let s = suffixed_aumid(&original, h);
    assert!(s.truncated);
    assert_eq!(
        s.value,
        format!("{}\u{FFFD}~TBG~wFF", "a".repeat(keep - 1))
    );
    assert_eq!(s.value.encode_utf16().count(), AUMID_MAX_LEN);
}

#[test]
fn suffixed_ids_of_two_windows_differ() {
    let long = "a".repeat(300);
    assert_ne!(
        suffixed_aumid(&long, 0x1234).value,
        suffixed_aumid(&long, 0x1235).value
    );
}

#[test]
fn validate_aumid_value_rules() {
    assert!(validate_aumid_value("Microsoft.Notepad").is_ok());
    assert!(validate_aumid_value("").is_err());
    assert!(validate_aumid_value("a\tb").is_err());
    assert!(validate_aumid_value("a\nb").is_err());
    assert!(validate_aumid_value("a\u{1}b").is_err());
    assert!(validate_aumid_value(&"x".repeat(129)).is_ok());
    assert!(validate_aumid_value(&"x".repeat(130)).is_err());
    assert!(validate_aumid_value(&"\u{1F600}".repeat(65)).is_err());
    assert!(validate_aumid_value(&"\u{1F600}".repeat(64)).is_ok());
}

#[test]
fn validate_aumid_value_messages() {
    assert_eq!(
        validate_aumid_value("").unwrap_err(),
        "value must not be empty"
    );
    assert_eq!(
        validate_aumid_value(&"x".repeat(130)).unwrap_err(),
        "value too long (130 UTF-16 units > limit 129)"
    );
    assert_eq!(
        validate_aumid_value("a\tb").unwrap_err(),
        "value must not contain control characters (tab / newline / others < U+0020)"
    );
}
