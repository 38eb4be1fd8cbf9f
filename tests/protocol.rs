use wadm_terminal::protocol::{classify_text, parse_u16, parse_u64, TextCommand, MAX_TERMINAL_DIMENSION};

#[test]
fn parse_u16_reads_plain_digits() {
    assert_eq!(parse_u16(b"0"), Some(0));
    assert_eq!(parse_u16(b"120"), Some(120));
    assert_eq!(parse_u16(b"65535"), Some(65535));
}

#[test]
fn parse_u16_accepts_a_leading_plus() {
    assert_eq!(parse_u16(b"+42"), Some(42));
    assert_eq!(parse_u16(b"+"), None);
    assert_eq!(parse_u16(b"++1"), None);
}

#[test]
fn parse_u16_refuses_what_std_refuses() {
    for s in ["", "-1", "65536", "99999999999", "1 2", " 1", "1a", "x"] {
        assert_eq!(parse_u16(s.as_bytes()), s.parse::<u16>().ok(), "input {:?}", s);
    }
}

#[test]
fn parse_u16_agrees_with_std_on_many_inputs() {
    for n in [0u32, 1, 9, 10, 99, 100, 4096, 65534, 65535, 65536, 70000, 655350] {
        let s = n.to_string();
        assert_eq!(parse_u16(s.as_bytes()), s.parse::<u16>().ok());
        let p = format!("+{}", n);
        assert_eq!(parse_u16(p.as_bytes()), p.parse::<u16>().ok());
        let z = format!("00{}", n);
        assert_eq!(parse_u16(z.as_bytes()), z.parse::<u16>().ok());
    }
}

#[test]
fn resize_message_is_recognised() {
    assert_eq!(classify_text(b"RESIZE:120x50"), TextCommand::Resize { cols: 120, rows: 50 });
    assert_eq!(classify_text(b"RESIZE:80x24"), TextCommand::Resize { cols: 80, rows: 24 });
    assert_eq!(classify_text(b"RESIZE:+100x+40"), TextCommand::Resize { cols: 100, rows: 40 });
}

#[test]
fn malformed_resize_message_is_ignored() {
    for t in [
        "RESIZE:", "RESIZE:80", "RESIZE:80x", "RESIZE:x24", "RESIZE:80x24x1", "RESIZE:80X24",
        "RESIZE:a0x24", "RESIZE: 80x24", "RESIZE:80x24\n", "RESIZE:70000x24",
    ] {
        assert_eq!(classify_text(t.as_bytes()), TextCommand::Ignored, "input {:?}", t);
    }
}

#[test]
fn resize_geometry_outside_the_range_is_ignored() {
    assert_eq!(classify_text(b"RESIZE:0x24"), TextCommand::Ignored);
    assert_eq!(classify_text(b"RESIZE:80x0"), TextCommand::Ignored);
    let top = format!("RESIZE:{}x{}", MAX_TERMINAL_DIMENSION, MAX_TERMINAL_DIMENSION);
    assert_eq!(
        classify_text(top.as_bytes()),
        TextCommand::Resize { cols: MAX_TERMINAL_DIMENSION, rows: MAX_TERMINAL_DIMENSION }
    );
    let over = format!("RESIZE:{}x24", MAX_TERMINAL_DIMENSION + 1);
    assert_eq!(classify_text(over.as_bytes()), TextCommand::Ignored);
}

#[test]
fn other_text_is_input() {
    assert_eq!(classify_text(b"ls\n"), TextCommand::Input);
    assert_eq!(classify_text(b""), TextCommand::Input);
    assert_eq!(classify_text(b"resize:80x24"), TextCommand::Input);
    assert_eq!(classify_text(b"RESIZE80x24"), TextCommand::Input);
    assert_eq!(classify_text(b" RESIZE:80x24"), TextCommand::Input);
    assert_eq!(classify_text("héllo".as_bytes()), TextCommand::Input);
}

#[test]
fn parse_u64_agrees_with_std() {
    for s in [
        "", "+", "0", "1000", "+10000", "18446744073709551615", "18446744073709551616", "99999999999999999999",
        "-1", "12a", " 1", "0018446744073709551615",
    ] {
        assert_eq!(parse_u64(s.as_bytes()), s.parse::<u64>().ok(), "input {:?}", s);
    }
}
