use tbg_lite::ringlog::{newer_half, oversized, trim_keep_tail, RingLog};

#[test]
fn trim_cuts_at_next_newline_after_half() {
    let content = "aaaa\nbbbb\ncccc\ndddd\n";
    assert_eq!(trim_keep_tail(content, 10), "cccc\ndddd\n");
    assert_eq!(trim_keep_tail("aaaa\nbbbb\ncccc\n", 7), "cccc\n");
}

#[test]
fn trim_start_at_zero_or_beyond_len() {
    assert_eq!(trim_keep_tail("a\nb\nc\n", 0), "a\nb\nc\n");
    assert_eq!(trim_keep_tail("a\nb\nc\n", 999), "a\nb\nc\n");
}

#[test]
fn trim_without_newline_keeps_everything() {
    assert_eq!(trim_keep_tail("abcdefgh", 3), "abcdefgh");
    assert_eq!(trim_keep_tail("", 0), "");
}

#[test]
fn trim_inside_a_character_drops_the_half_line() {
    assert_eq!(trim_keep_tail("中中\nb\n", 1), "b\n");
    assert_eq!(trim_keep_tail("中中\nb\n", 7), "b\n");
    assert_eq!(trim_keep_tail("中中\nb\n", 8), "");
}

#[test]
fn newer_half_is_at_most_half() {
    let line = "[1700000000] startup sweep done\n";
    let content = line.repeat(9);
    let kept = newer_half(&content);
    assert_eq!(kept, line.repeat(4));
    assert!(kept.len() <= content.len() - content.len() / 2);
}

#[test]
fn log_lines_and_limits() {
    let log = RingLog::open(true, Some("C:\\tbg.log".to_string()));
    assert!(log.enabled());
    assert_eq!(log.path(), Some("C:\\tbg.log".to_string()));
    assert_eq!(
        log.log(1700000000, "watch stop (graceful)"),
        Some("[1700000000] watch stop (graceful)\n".to_string())
    );
    let off = RingLog::open(false, Some("C:\\tbg.log".to_string()));
    assert!(!off.enabled());
    assert_eq!(off.log(1, "x"), None);
    assert!(!RingLog::open(true, None).enabled());
    assert!(!oversized(256 * 1024));
    assert!(oversized(256 * 1024 + 1));
}
