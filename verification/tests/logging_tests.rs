use rulmee::logging::{resolve_log_path, ConsoleLog, LineAssembler, MAX_CONSOLE_LINES};

#[test]
fn test_console_buffer_writer_ring_buffer() {
    let mut writer = ConsoleLog::new();

    for i in 0..60 {
        let log_line = format!("line {}\n", i);
        let n = writer.write(log_line.as_bytes());
        assert_eq!(n, log_line.len());
    }

    let lines = writer.lines();
    assert_eq!(lines.len(), 50);
    assert_eq!(lines.first().unwrap(), "line 10");
    assert_eq!(lines.last().unwrap(), "line 59");
}

#[test]
fn test_resolve_log_path_cli_arg() {
    let path = resolve_log_path(Some("/tmp/lidm_cli_test.log"));
    assert_eq!(path, "/tmp/lidm_cli_test.log");
}

#[test]
fn test_resolve_log_path_default_fallback() {
    let path = resolve_log_path(None);
    assert_eq!(path, "/tmp/rulmee.log");

    let path_empty = resolve_log_path(Some("  "));
    assert_eq!(path_empty, "/tmp/rulmee.log");
}

#[test]
fn console_log_splits_text_into_lines() {
    let mut log = ConsoleLog::new();
    log.push_text("a\r\nb\n\nc");
    assert_eq!(log.lines(), vec!["a", "b", "", "c"]);
    assert_eq!(log.len(), 4);
    assert_eq!(MAX_CONSOLE_LINES, 50);
}

#[test]
fn console_log_decodes_invalid_utf8_lossily() {
    let mut log = ConsoleLog::new();
    log.write(&[0x66, 0xff, 0x6f]);
    assert_eq!(log.lines(), vec!["f\u{fffd}o"]);
}

#[test]
fn console_lines_do_not_depend_on_how_reads_split() {
    let mut whole = LineAssembler::new();
    let a = whole.feed(b"first\nsec");
    assert_eq!(a, vec!["first"]);
    let b = whole.feed(b"ond\nthi");
    assert_eq!(b, vec!["second"]);

    let mut once = LineAssembler::new();
    let all = once.feed(b"first\nsecond\nthi");
    assert_eq!(all, vec!["first", "second"]);
    assert_eq!(once.feed(b"rd\n"), vec!["third"]);
    assert_eq!(whole.feed(b"rd\n"), vec!["third"]);
}

#[test]
fn valid_utf8_comes_out_as_its_own_text() {
    let mut log = ConsoleLog::new();
    log.write("grüße\nascii".as_bytes());
    assert_eq!(log.lines(), vec!["grüße", "ascii"]);
    let mut a = LineAssembler::new();
    assert_eq!(a.feed("ünï\n".as_bytes()), vec!["ünï"]);
}
