use tbg_lite::inspect::{inspect_json, inspect_one, inspect_table, json_escape, truncate};
use tbg_lite::winutil::WindowFacts;

fn window(title: &str, aumid: Result<&str, &str>) -> WindowFacts {
    WindowFacts {
        is_root: true,
        visible: true,
        title: title.to_string(),
        class: "Notepad".to_string(),
        ex_style: 0,
        cloak: None,
        pid: 42,
        aumid: match aumid {
            Ok(a) => Ok(a.to_string()),
            Err(e) => Err(e.to_string()),
        },
    }
}

#[test]
fn truncate_short_passthrough() {
    assert_eq!(truncate("abc", 5), "abc");
    assert_eq!(truncate("", 5), "");
    assert_eq!(truncate("abc", 3), "abc");
}

#[test]
fn truncate_marks_with_tilde() {
    assert_eq!(truncate("abcdef", 5), "abcd~");
    assert_eq!(truncate("中文测试", 3), "中文~");
}

#[test]
fn json_escape_specials() {
    assert_eq!(json_escape("plain"), "plain");
    assert_eq!(json_escape("a\"b"), "a\\\"b");
    assert_eq!(json_escape("a\\b"), "a\\\\b");
    assert_eq!(json_escape("a\nb"), "a\\nb");
    assert_eq!(json_escape("a\rb"), "a\\rb");
    assert_eq!(json_escape("a\tb"), "a\\tb");
    assert_eq!(json_escape("a\u{1}b"), "a\\u0001b");
    assert_eq!(json_escape("中文"), "中文");
}

#[test]
fn json_escape_control_characters() {
    assert_eq!(json_escape("\u{0}\u{1f}\u{10}"), "\\u0000\\u001f\\u0010");
    assert_eq!(json_escape("\u{7f}"), "\u{7f}");
}

#[test]
fn inspect_one_window_as_json() {
    let w = window("a \"b\"", Ok("App~TBG~wAB"));
    assert_eq!(
        inspect_one(0xAB, &w, true).unwrap(),
        vec![
            "{\"hwnd\":\"0xAB\",\"pid\":42,\"class\":\"Notepad\",\"title\":\"a \\\"b\\\"\",\"aumid\":\"App~TBG~wAB\",\"suffixed\":true,\"grouped\":false}"
                .to_string()
        ]
    );
}

#[test]
fn inspect_one_window_in_lines() {
    let w = window("t", Ok(""));
    assert_eq!(
        inspect_one(0xAB, &w, false).unwrap(),
        vec![
            "HWND     : 0xAB",
            "PID      : 42",
            "Class    : Notepad",
            "Title    : t",
            "AUMID    : <empty>",
            "Suffixed : false",
            "Grouped  : false",
        ]
    );
}

#[test]
fn inspect_one_window_unreadable() {
    let w = window("t", Err("denied"));
    assert_eq!(
        inspect_one(0xAB, &w, true).unwrap_err(),
        "inspect 0xAB: read AUMID failed: denied"
    );
}

#[test]
fn inspect_lists_application_windows_only() {
    let ws = vec![
        (0x1, window("one", Ok("TBG.Group.work"))),
        (0x2, window("", Ok("hidden"))),
        (0x3, window("three", Err("denied"))),
    ];
    assert_eq!(
        inspect_json(&ws, false),
        "[{\"hwnd\":\"0x1\",\"pid\":42,\"class\":\"Notepad\",\"title\":\"one\",\"aumid\":\"TBG.Group.work\",\"suffixed\":false,\"grouped\":true},{\"hwnd\":\"0x3\",\"pid\":42,\"class\":\"Notepad\",\"title\":\"three\",\"aumid\":null,\"suffixed\":false,\"grouped\":false}]"
    );
    assert_eq!(inspect_json(&Vec::new(), true), "[]");
    assert_eq!(inspect_table(&ws, false).len(), 3);
    assert_eq!(inspect_table(&ws, true).len(), 4);
}

#[test]
fn inspect_json_marks_any_suffix_in_a_list() {
    let ws = vec![(0x1, window("one", Ok("App~TBG~w2")))];
    assert!(inspect_json(&ws, false).contains("\"suffixed\":true"));
    let single = inspect_one(0x1, &ws[0].1, true).unwrap();
    assert!(single[0].contains("\"suffixed\":false"));
}

#[test]
fn inspect_table_is_aligned() {
    let mut w = window("title", Ok("An.Id.That.Is.Far.Too.Long.For.The.Column"));
    w.class = "AClassNameThatIsTooLongForIt".to_string();
    let out = inspect_table(&vec![(0x10C12A8, w)], false);
    assert_eq!(
        out[0],
        "HWND               PID     CLASS                      AUMID                          TITLE"
    );
    assert_eq!(
        out[1],
        "0x10C12A8          42      AClassNameThatIsTooLongFo~ An.Id.That.Is.Far.Too.Long.Fo~ title"
    );
}
