use sunix::command::{append_output, log_lines, truncate, truncate_log_line};

#[test]
fn truncates_log_lines_without_adding_lines() {
    assert_eq!(truncate_log_line("abcdef", 6), "abcdef");
    assert_eq!(truncate_log_line("abcdef", 5), "ab...");
    assert!(!truncate_log_line("abcdef", 5).contains('\n'));
}

#[test]
fn truncates_below_the_marker_width() {
    assert_eq!(truncate_log_line("abcdef", 2), "...");
    assert_eq!(truncate_log_line("äöüß", 3), "...");
    assert_eq!(truncate_log_line("äöüß", 4), "äöüß");
}

#[test]
fn truncates_output_on_a_line_of_its_own() {
    assert_eq!(truncate("abcdef", 3), "abc\n...");
    assert_eq!(truncate("abc", 3), "abc");
}

#[test]
fn appends_trimmed_output_sections() {
    let mut message = "nix failed".to_string();
    append_output(&mut message, "stdout", b"  \n ");
    assert_eq!(message, "nix failed");
    append_output(&mut message, "stderr", b"\n error: boom \n");
    assert_eq!(message, "nix failed\n\nstderr:\nerror: boom");
}

#[test]
fn splits_log_chunks_into_lines() {
    let lines = log_lines(b"  building foo\r\n\ncopying bar  \n");
    assert_eq!(lines, vec!["building foo".to_string(), "copying bar".to_string()]);
    let long = "x".repeat(300);
    let lines = log_lines(long.as_bytes());
    assert_eq!(lines.len(), 1);
    assert_eq!(lines[0].chars().count(), 240);
    assert!(lines[0].ends_with("..."));
}

#[test]
fn decodes_invalid_utf8_lossily() {
    let lines = log_lines(&[b'o', b'k', 0xff, b'\n']);
    assert_eq!(lines, vec!["ok\u{fffd}".to_string()]);
}
