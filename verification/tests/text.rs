use i3_valet::command::{is_whitespace, parse_command_string, split_on, split_whitespace};
use i3_valet::ext::CommandError;
use i3_valet::text::{append_isize, append_usize, usize_to_string};

#[test]
fn decimal_of_unsigned_numbers() {
    for n in [0usize, 1, 9, 10, 11, 99, 100, 101, 12345, 1000000, usize::MAX - 1, usize::MAX] {
        assert_eq!(usize_to_string(n), n.to_string());
    }
    assert_eq!(usize_to_string(0), "0");
    assert_eq!(usize_to_string(907), "907");
}

#[test]
fn decimal_is_appended() {
    let mut s = String::from("id=");
    append_usize(&mut s, 42);
    append_usize(&mut s, 0);
    assert_eq!(s, "id=420");
}

#[test]
fn decimal_of_signed_numbers() {
    for i in [0isize, 1, -1, 9, -9, 10, -10, 12345, -12345, isize::MAX, isize::MIN, isize::MIN + 1]
    {
        let mut s = String::new();
        append_isize(&mut s, i);
        assert_eq!(s, i.to_string());
    }
    let mut s = String::from("x ");
    append_isize(&mut s, -80);
    assert_eq!(s, "x -80");
}

#[test]
fn white_space_is_what_the_standard_library_says() {
    for u in 0..=0x10FFFFu32 {
        if let Some(c) = char::from_u32(u) {
            assert_eq!(is_whitespace(c), c.is_whitespace(), "U+{:04X}", u);
        }
    }
}

#[test]
fn words_are_split_as_the_standard_library_splits() {
    for s in [
        "",
        " ",
        "nop",
        "nop loc abs nw",
        "  nop   loc\tabs\n nw  ",
        "a b",
        " a",
        "a ",
        "\u{3000}wide\u{a0}space\u{2003}",
        "exec --no-startup-id xterm",
        "ünï cödé",
    ] {
        let want: Vec<String> = s.split_whitespace().map(|w| w.to_string()).collect();
        assert_eq!(split_whitespace(s), want, "{:?}", s);
    }
    assert_eq!(split_whitespace("  two  words "), vec!["two".to_string(), "words".to_string()]);
}

#[test]
fn pieces_are_split_as_the_standard_library_splits() {
    for s in ["", ";", "a", "a;b", "a;", ";a", "nop fix; nop loc abs nw;exec x", ";;", "ä;ö"] {
        let want: Vec<String> = s.split(';').map(|w| w.to_string()).collect();
        assert_eq!(split_on(s, ';'), want, "{:?}", s);
    }
    assert_eq!(split_on("a b", ' '), vec!["a".to_string(), "b".to_string()]);
    assert_eq!(split_on("", ';'), vec!["".to_string()]);
}

#[test]
fn commands_for_this_program_begin_with_nop() {
    assert_eq!(
        parse_command_string("nop loc abs nw"),
        Some(vec!["loc".to_string(), "abs".to_string(), "nw".to_string()])
    );
    assert_eq!(parse_command_string("  nop\tfix "), Some(vec!["fix".to_string()]));
    assert_eq!(parse_command_string("nop"), Some(vec![]));
    assert_eq!(parse_command_string("exec xterm"), None);
    assert_eq!(parse_command_string("nopfix"), None);
    assert_eq!(parse_command_string("fix nop"), None);
    assert_eq!(parse_command_string("NOP fix"), None);
    assert_eq!(parse_command_string(""), None);
    assert_eq!(parse_command_string("   "), None);
}

#[test]
fn command_error_keeps_command_and_cause() {
    let e = CommandError::new("workspace 3", std::io::Error::new(std::io::ErrorKind::Other, "gone"));
    assert_eq!(e.cmd(), "workspace 3");
    assert_eq!(e.err().kind(), std::io::ErrorKind::Other);
    assert_eq!(e.err().to_string(), "gone");
    let e = CommandError::new(String::from("fix"), std::io::Error::from(std::io::ErrorKind::BrokenPipe));
    assert_eq!(e.cmd(), "fix");
    assert_eq!(e.err().kind(), std::io::ErrorKind::BrokenPipe);
    let e = CommandError::new(17, std::io::Error::from(std::io::ErrorKind::BrokenPipe));
    assert_eq!(e.cmd(), "17");
}
