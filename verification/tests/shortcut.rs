use tbg_lite::shortcut::{
    lnk_file_name, parse_icon_spec, pin_dir, taskbar_dir, tile_description, unpin, verify_tile, Unpin,
};

#[test]
fn icon_spec_plain_path_defaults_index_zero() {
    assert_eq!(
        parse_icon_spec(r"C:\icons\a.ico").unwrap(),
        (r"C:\icons\a.ico".to_string(), 0)
    );
    assert_eq!(parse_icon_spec("a.ico").unwrap(), ("a.ico".to_string(), 0));
}

#[test]
fn icon_spec_explicit_index() {
    assert_eq!(
        parse_icon_spec(r"C:\icons\a.ico,2").unwrap(),
        (r"C:\icons\a.ico".to_string(), 2)
    );
    assert_eq!(
        parse_icon_spec(r"C:\icons\a.ico,-3").unwrap(),
        (r"C:\icons\a.ico".to_string(), -3)
    );
}

#[test]
fn icon_spec_comma_inside_path_stays_whole() {
    assert_eq!(
        parse_icon_spec(r"C:\a,b\icon.dll").unwrap(),
        (r"C:\a,b\icon.dll".to_string(), 0)
    );
    assert_eq!(
        parse_icon_spec(r"C:\icons\a.ico,2z").unwrap(),
        (r"C:\icons\a.ico,2z".to_string(), 0)
    );
}

#[test]
fn icon_spec_empty_rejected() {
    assert!(parse_icon_spec("").is_err());
    assert!(parse_icon_spec(",2").is_err());
}

#[test]
fn lnk_file_name_and_pin_dir() {
    assert_eq!(lnk_file_name("work"), "work.lnk");
    assert_eq!(lnk_file_name("a.b_c-9"), "a.b_c-9.lnk");
    assert_eq!(
        pin_dir(r"C:\Users\x\AppData\Local\tbg-lite"),
        r"C:\Users\x\AppData\Local\tbg-lite\pin"
    );
}

#[test]
fn icon_spec_error_and_range() {
    assert_eq!(
        parse_icon_spec("").unwrap_err(),
        "icon path must not be empty"
    );
    assert_eq!(
        parse_icon_spec("a.ico,2147483647").unwrap(),
        ("a.ico".to_string(), i32::MAX)
    );
    assert_eq!(
        parse_icon_spec("a.ico,2147483648").unwrap(),
        ("a.ico,2147483648".to_string(), 0)
    );
    assert_eq!(
        parse_icon_spec("a,b,-2147483648").unwrap(),
        ("a,b".to_string(), i32::MIN)
    );
}

#[test]
fn directories_join_as_windows_does() {
    assert_eq!(pin_dir(r"D:\data\"), r"D:\data\pin");
    assert_eq!(pin_dir(""), "pin");
    assert_eq!(pin_dir("D:"), "D:pin");
    assert_eq!(
        taskbar_dir(r"C:\Users\x\AppData\Roaming"),
        r"C:\Users\x\AppData\Roaming\Microsoft\Internet Explorer\Quick Launch\User Pinned\TaskBar"
    );
}

#[test]
fn tiles_are_verified() {
    assert_eq!(
        tile_description("TBG.Group.work"),
        "tbg-lite group tile (TBG.Group.work)"
    );
    assert!(verify_tile("TBG.Group.work", "TBG.Group.work", "p").is_ok());
    assert_eq!(
        verify_tile("TBG.Group.work", "other", "p").unwrap_err(),
        "pin: AUMID verification failed: expected 'TBG.Group.work', file says 'other' (p)"
    );
}

#[test]
fn foreign_tiles_are_not_deleted() {
    assert!(matches!(unpin("TBG.Group.work", None, "p"), Unpin::NotPinned));
    assert!(matches!(
        unpin("TBG.Group.work", Some(Ok("TBG.Group.work".to_string())), "p"),
        Unpin::Delete
    ));
    match unpin("TBG.Group.work", Some(Ok("Other".to_string())), "p") {
        Unpin::Refused(e) => assert_eq!(
            e,
            "unpin: refusing to delete 'p': expected AUMID 'TBG.Group.work', file says 'Other'"
        ),
        _ => panic!("another id must be refused"),
    }
    assert!(matches!(
        unpin("TBG.Group.work", Some(Err("load".to_string())), "p"),
        Unpin::Refused(_)
    ));
}
