use dnf_assist::text::{chars_of, format_u32, parse_u32, split_lines};

#[test]
fn split_lines_matches_std_lines() {
    let cases = ["", "a", "a\n", "\n", "a\r\nb", "a\r", "a\n\nb\n", "x\r\n\r\ny", "末\n尾"];
    for c in cases.iter() {
        let expected: Vec<String> = c.lines().map(|s| s.to_string()).collect();
        assert_eq!(split_lines(c), expected, "case {:?}", c);
    }
}

#[test]
fn split_lines_examples() {
    assert_eq!(split_lines("a\r\nb\n"), vec!["a".to_string(), "b".to_string()]);
    assert_eq!(split_lines("\n\n"), vec!["".to_string(), "".to_string()]);
    assert_eq!(split_lines("a\rb"), vec!["a\rb".to_string()]);
}

#[test]
fn chars_of_keeps_order() {
    assert_eq!(chars_of("héllo"), vec!['h', 'é', 'l', 'l', 'o']);
}

#[test]
fn parse_u32_matches_std_parse() {
    let cases = ["0", "12", "+12", "012", "", "+", "-1", "1 ", " 1", "4294967295", "4294967296", "99999999999", "1a", "+0"];
    for c in cases.iter() {
        assert_eq!(parse_u32(c), c.parse::<u32>().ok(), "case {:?}", c);
    }
}

#[test]
fn format_u32_writes_decimal() {
    assert_eq!(format_u32(0), "0");
    assert_eq!(format_u32(7), "7");
    assert_eq!(format_u32(1267), "1267");
    assert_eq!(format_u32(u32::MAX), "4294967295");
}

#[test]
fn parse_reads_back_format() {
    for n in [0u32, 5, 10, 99, 100, 65535, 4294967295] {
        assert_eq!(parse_u32(&format_u32(n)), Some(n));
    }
}
