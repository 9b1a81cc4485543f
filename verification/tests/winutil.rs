use tbg_lite::num::{decimal_text, hex_text};
use tbg_lite::text::is_white_space;
use tbg_lite::utf16::{decode, encode};
use tbg_lite::winutil::{
    com_init, hwnd_hex, join_path, parse_hwnd, shown_aumid, wide_buf_to_string, WindowFacts,
};

fn window() -> WindowFacts {
    WindowFacts {
        is_root: true,
        visible: true,
        title: "t".to_string(),
        class: "c".to_string(),
        ex_style: 0x100,
        cloak: None,
        pid: 1,
        aumid: Ok(String::new()),
    }
}

#[test]
fn white_space_is_that_of_char() {
    for i in 0..=0x10FFFF_u32 {
        if let Some(c) = char::from_u32(i) {
            assert_eq!(is_white_space(c), c.is_whitespace());
        }
    }
}

#[test]
fn numbers_are_those_of_format() {
    for n in [0_u64, 9, 10, 65535, u64::MAX] {
        assert_eq!(decimal_text(n), format!("{}", n));
    }
    for n in [0_usize, 15, 16, 0x10C12A8, usize::MAX] {
        assert_eq!(hex_text(n), format!("{:X}", n));
        assert_eq!(hwnd_hex(n), format!("{:X}", n));
    }
}

#[test]
fn code_units_are_those_of_str() {
    let s = "a中\u{1F600}\u{FFFF}\u{10FFFF}";
    let units: Vec<u16> = s.encode_utf16().collect();
    assert_eq!(encode(s), units);
    let broken = [0xD83D_u16, 0x61, 0xDE00, 0xD83D, 0xDE00, 0xD83D];
    assert_eq!(decode(&broken, broken.len()), String::from_utf16_lossy(&broken));
}

#[test]
fn buffers_are_cut_to_their_length() {
    let buf = [0x61_u16, 0x62, 0x63];
    assert_eq!(wide_buf_to_string(&buf, 2), "ab");
    assert_eq!(wide_buf_to_string(&buf, 0), "");
    assert_eq!(wide_buf_to_string(&buf, -1), "");
    assert_eq!(wide_buf_to_string(&buf, 9), "abc");
}

#[test]
fn handles_are_hexadecimal() {
    assert_eq!(parse_hwnd("0x00000000010C12A8").unwrap(), 0x10C12A8);
    assert_eq!(parse_hwnd(" ab\n").unwrap(), 0xAB);
    assert_eq!(parse_hwnd("0x0XAB").unwrap(), 0xAB);
    assert_eq!(parse_hwnd("+AB").unwrap(), 0xAB);
    assert_eq!(parse_hwnd("-1").unwrap(), usize::MAX);
    assert_eq!(
        parse_hwnd("0xFFFFFFFFFFFFFFFFF").unwrap_err(),
        "invalid HWND '0xFFFFFFFFFFFFFFFFF' (expected hex, e.g. 0x00000000010C12A8)"
    );
    assert!(parse_hwnd("").is_err());
    assert!(parse_hwnd("0x").is_err());
}

#[test]
fn empty_ids_are_shown() {
    assert_eq!(shown_aumid(""), "<empty>");
    assert_eq!(shown_aumid("x"), "x");
}

#[test]
fn application_windows() {
    assert!(window().is_app_window());
    let mut w = window();
    w.is_root = false;
    assert!(!w.is_app_window());
    let mut w = window();
    w.ex_style = 0x180;
    assert!(!w.is_app_window());
    let mut w = window();
    w.class = "PROGMAN".to_string();
    assert!(w.is_shell_window());
    assert!(!window().is_shell_window());
    assert!(!window().is_cloaked());
    let mut w = window();
    w.cloak = Some(0);
    assert!(!w.is_cloaked());
    w.cloak = Some(1);
    assert!(w.is_cloaked());
}

#[test]
fn com_may_be_there_already() {
    assert_eq!(com_init(0, "S_OK"), Ok(true));
    assert_eq!(com_init(1, "S_FALSE"), Ok(true));
    assert_eq!(com_init(-2147417850, "changed"), Ok(false));
    assert_eq!(
        com_init(-2147467259, "0x80004005"),
        Err("CoInitializeEx failed: 0x80004005".to_string())
    );
}

#[test]
fn paths_are_joined() {
    assert_eq!(join_path("C:\\a", "b"), "C:\\a\\b");
    assert_eq!(join_path("C:/a/", "b"), "C:/a/b");
    assert_eq!(join_path("C:", "b"), "C:b");
    assert_eq!(join_path("é:", "b"), "é:\\b");
    assert_eq!(join_path("", "b"), "b");
}
