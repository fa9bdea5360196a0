use souls_lean::lean_vacuum::ansi_filter::strip_ansi;

#[test]
fn strip_ansi_removes_color_codes() {
    let raw = "\x1b[31mERROR\x1b[0m: failed at \x1b[1mline 42\x1b[0m";
    let cleaned = strip_ansi(raw);
    assert_eq!(cleaned, "ERROR: failed at line 42");
}

#[test]
fn strip_ansi_passthrough_when_no_escape() {
    let plain = "no ansi here, just text";
    assert_eq!(strip_ansi(plain), plain);
}

#[test]
fn strip_ansi_handles_cursor_and_clear_codes() {
    let raw = "\x1b[2K\x1b[Hclear screen and home";
    let cleaned = strip_ansi(raw);
    assert_eq!(cleaned, "clear screen and home");
}

#[test]
fn strip_ansi_unterminated_escape_drops_the_rest() {
    assert_eq!(strip_ansi("ok\x1b[12;34"), "ok");
    assert_eq!(strip_ansi("é\x1b[0mü"), "éü");
}

#[test]
fn strip_ansi_twice_changes_nothing() {
    let raw = "\x1b[1;32mok\x1b[0m done \x1b[2K";
    let once = strip_ansi(raw);
    assert_eq!(once, "ok done ");
    assert_eq!(strip_ansi(&once), once);
}
