use tbg_lite::autostart::{
    build_command, install, install_opened, normalize_win_path, read_command, read_opened,
    read_sized, reg_sz_bytes_to_string, reg_sz_string_to_bytes, uninstall, uninstall_found,
    uninstall_opened, wide, InstallOutcome, ReadStep, RemoveStep, UninstallOutcome,
};

#[test]
fn build_command_quotes_exe_and_joins_args() {
    assert_eq!(
        build_command(r"C:\Tools\tbg-lite.exe", &["watch", "--duration", "0"]),
        "\"C:\\Tools\\tbg-lite.exe\" watch --duration 0"
    );
    assert_eq!(
        build_command(
            r"C:\Program Files\tbg\tbg-lite.exe",
            &[
                "watch",
                "--strategy",
                "group",
                "--group",
                "work",
                "--duration",
                "0"
            ]
        ),
        "\"C:\\Program Files\\tbg\\tbg-lite.exe\" watch --strategy group --group work --duration 0"
    );
    assert_eq!(build_command("a.exe", &[]), "\"a.exe\"");
}

#[test]
fn wide_is_nul_terminated() {
    assert_eq!(wide("hi"), vec!['h' as u16, 'i' as u16, 0]);
    assert_eq!(wide(""), vec![0u16]);
    assert_eq!(wide("\u{1F600}").len(), 3);
}

#[test]
fn normalize_win_path_folds_and_strips() {
    assert_eq!(
        normalize_win_path(r"C:\Tools\tbg-lite.exe"),
        r"C:\Tools\tbg-lite.exe"
    );
    assert_eq!(
        normalize_win_path(r"D:\a\tbg\ci\..\target\release\tbg-lite.exe"),
        r"D:\a\tbg\target\release\tbg-lite.exe"
    );
    assert_eq!(
        normalize_win_path(r"D:\a\.\\b\\app.exe"),
        r"D:\a\b\app.exe"
    );
    assert_eq!(
        normalize_win_path(r"\\?\C:\x\y\tbg-lite.exe"),
        r"C:\x\y\tbg-lite.exe"
    );
    assert_eq!(
        normalize_win_path(r"\\?\UNC\srv\share\tbg-lite.exe"),
        r"\\srv\share\tbg-lite.exe"
    );
    assert_eq!(
        normalize_win_path(r"\\srv\share\a\..\b\app.exe"),
        r"\\srv\share\b\app.exe"
    );
    assert_eq!(normalize_win_path(r"C:\..\app.exe"), r"C:\app.exe");
    assert_eq!(normalize_win_path(r"a\b\..\c"), r"a\b\..\c");
    assert_eq!(normalize_win_path("app.exe"), "app.exe");
    assert_eq!(normalize_win_path(""), "");
    assert_eq!(normalize_win_path("C:"), "C:");
    assert_eq!(normalize_win_path(r"C:\"), "C:");
}

#[test]
fn reg_sz_roundtrip_and_nul_cut() {
    let cmd = "\"D:\\tools\\tbg-lite.exe\" watch --strategy ungroup --duration 0";
    let data = reg_sz_string_to_bytes(cmd);
    assert!(data.len() % 2 == 0);
    assert_eq!(&data[data.len() - 2..], &[0, 0]);
    assert_eq!(reg_sz_bytes_to_string(&data), cmd);
    let mut padded = data.clone();
    padded.extend_from_slice(&[0, 0, 0, 0]);
    assert_eq!(reg_sz_bytes_to_string(&padded), cmd);
    let bare: Vec<u8> = "abc".encode_utf16().flat_map(|u| u.to_le_bytes()).collect();
    assert_eq!(reg_sz_bytes_to_string(&bare), "abc");
    assert_eq!(reg_sz_bytes_to_string(&[]), "");
    assert_eq!(reg_sz_bytes_to_string(&[0, 0]), "");
    assert_eq!(reg_sz_bytes_to_string(&[b'a', 0, b'b']), "a");
    assert_eq!(reg_sz_bytes_to_string(&[0x00, 0xD8]), "\u{FFFD}");
}

#[test]
fn normalize_win_path_drops_what_is_above_the_root() {
    assert_eq!(normalize_win_path(r"C:\a\..\..\..\b\."), r"C:\b");
    assert_eq!(normalize_win_path(r"\\srv\share\..\..\x"), r"\\srv\share\x");
    assert_eq!(normalize_win_path(r"\\srv\share"), r"\\srv\share");
    assert_eq!(normalize_win_path(r"\\srv\share\\"), r"\\srv\share\\");
}

#[test]
fn normalize_win_path_twice_is_once() {
    let once = normalize_win_path(r"\\?\C:\a\.\b\..\\c\");
    assert_eq!(once, r"C:\a\c");
    assert_eq!(normalize_win_path(&once), once);
    let shared = normalize_win_path(r"\\?\UNC\srv\share\a\..\\b\.\c");
    assert_eq!(shared, r"\\srv\share\b\c");
    assert_eq!(normalize_win_path(&shared), shared);
}

#[test]
fn normalize_win_path_needs_an_ascii_drive() {
    assert_eq!(normalize_win_path(r"é:\a\..\b"), r"é:\a\..\b");
}

#[test]
fn reg_sz_keeps_supplementary_characters() {
    let s = "\u{1F600}中a";
    assert_eq!(reg_sz_bytes_to_string(&reg_sz_string_to_bytes(s)), s);
}

#[test]
fn reading_the_run_value_step_by_step() {
    assert!(matches!(read_opened(0), ReadStep::Next));
    assert!(matches!(read_opened(2), ReadStep::Done(None)));
    match read_opened(5) {
        ReadStep::Failed(e) => assert_eq!(e, "RegOpenKeyExW failed (win32 error 5)"),
        _ => panic!("access denied must fail"),
    }
    assert!(matches!(read_sized(2, 0, 0), ReadStep::Done(None)));
    match read_sized(5, 1, 4) {
        ReadStep::Failed(e) => assert_eq!(e, "RegQueryValueExW(size) failed (win32 error 5)"),
        _ => panic!("access denied must fail"),
    }
    match read_sized(0, 4, 4) {
        ReadStep::Failed(e) => assert_eq!(
            e,
            "autostart value has unexpected registry type 4 (expected REG_SZ)"
        ),
        _ => panic!("a number must fail"),
    }
    match read_sized(0, 1, 0) {
        ReadStep::Done(Some(s)) => assert_eq!(s, ""),
        _ => panic!("an empty value is an empty text"),
    }
    assert!(matches!(read_sized(0, 1, 4), ReadStep::Next));
    assert_eq!(
        read_command(0, &[b'a', 0, 0, 0]).unwrap(),
        Some("a".to_string())
    );
    assert_eq!(
        read_command(234, &[]).unwrap_err(),
        "RegQueryValueExW(data) failed (win32 error 234)"
    );
}

#[test]
fn installing_tells_what_was_replaced() {
    assert!(install_opened(0).is_ok());
    assert_eq!(
        install_opened(5).unwrap_err(),
        "RegCreateKeyExW failed (win32 error 5)"
    );
    assert!(matches!(install(0, None), Ok(InstallOutcome::New)));
    match install(0, Some("old".to_string())) {
        Ok(InstallOutcome::Replaced(was)) => assert_eq!(was, "old"),
        _ => panic!("the old command is replaced"),
    }
    match install(5, Some("old".to_string())) {
        Err(e) => assert_eq!(e, "RegSetValueExW failed (win32 error 5)"),
        _ => panic!("access denied must fail"),
    }
}

#[test]
fn uninstalling_twice_is_no_error() {
    assert!(matches!(
        uninstall_found(&None),
        RemoveStep::Done(UninstallOutcome::NotInstalled)
    ));
    assert!(matches!(
        uninstall_found(&Some("c".to_string())),
        RemoveStep::Next
    ));
    assert!(matches!(uninstall_opened(0), RemoveStep::Next));
    assert!(matches!(
        uninstall_opened(2),
        RemoveStep::Done(UninstallOutcome::NotInstalled)
    ));
    match uninstall_opened(5) {
        RemoveStep::Failed(e) => assert_eq!(e, "RegOpenKeyExW failed (win32 error 5)"),
        _ => panic!("access denied must fail"),
    }
    match uninstall(0, "c".to_string()) {
        Ok(UninstallOutcome::Removed(was)) => assert_eq!(was, "c"),
        _ => panic!("the command was removed"),
    }
    assert!(matches!(
        uninstall(2, "c".to_string()),
        Ok(UninstallOutcome::NotInstalled)
    ));
    match uninstall(5, "c".to_string()) {
        Err(e) => assert_eq!(e, "RegDeleteValueW failed (win32 error 5)"),
        _ => panic!("access denied must fail"),
    }
}
