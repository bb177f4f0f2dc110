use full_dataset_cache::lines::{complete_part, decode_line, split_lines};
use std::io::BufRead;

fn bytes(lines: &[&str]) -> Vec<Vec<u8>> {
    lines.iter().map(|line| line.as_bytes().to_vec()).collect()
}

#[test]
fn split_lines_of_nothing_is_nothing() {
    assert_eq!(split_lines(b""), Vec::<Vec<u8>>::new());
}

#[test]
fn split_lines_ends_each_line_at_a_line_feed() {
    assert_eq!(split_lines(b"A=1\nB=2\n#comment\n"), bytes(&["A=1", "B=2", "#comment"]));
}

#[test]
fn split_lines_keeps_an_unterminated_last_line() {
    assert_eq!(split_lines(b"one\ntwo"), bytes(&["one", "two"]));
    assert_eq!(split_lines(b"alone"), bytes(&["alone"]));
}

#[test]
fn split_lines_keeps_empty_lines() {
    assert_eq!(split_lines(b"\n"), bytes(&[""]));
    assert_eq!(split_lines(b"a\n\nb\n"), bytes(&["a", "", "b"]));
    assert_eq!(split_lines(b"\n\n"), bytes(&["", ""]));
}

#[test]
fn split_lines_drops_a_carriage_return_before_a_line_feed() {
    assert_eq!(split_lines(b"a\r\nb\r\n"), bytes(&["a", "b"]));
    assert_eq!(split_lines(b"\r\n"), bytes(&[""]));
}

#[test]
fn split_lines_drops_only_one_carriage_return() {
    assert_eq!(split_lines(b"a\r\r\n"), bytes(&["a\r"]));
}

#[test]
fn split_lines_keeps_a_carriage_return_that_no_line_feed_follows() {
    assert_eq!(split_lines(b"a\rb\n"), bytes(&["a\rb"]));
    assert_eq!(split_lines(b"a\nb\r"), bytes(&["a", "b\r"]));
}

#[test]
fn split_lines_agrees_with_the_standard_line_reader() {
    let inputs: [&[u8]; 8] = [
        b"",
        b"\n",
        b"x",
        b"x\n",
        b"x\r\ny\n\nz",
        b"\r",
        b"\r\n\r\n",
        b"k=v\r\n#c\r\n\r\nlast\r",
    ];
    for input in inputs {
        let expected: Vec<Vec<u8>> =
            input.lines().map(|line| line.unwrap().into_bytes()).collect();
        assert_eq!(split_lines(input), expected);
    }
}

#[test]
fn decode_line_reads_utf8() {
    assert_eq!(decode_line(b"A=1"), Some(String::from("A=1")));
    assert_eq!(decode_line(b""), Some(String::new()));
    assert_eq!(decode_line("gr\u{fc}n \u{2713}".as_bytes()), Some(String::from("gr\u{fc}n \u{2713}")));
}

#[test]
fn decode_line_refuses_bytes_that_are_no_utf8() {
    assert_eq!(decode_line(&[0xff, 0xfe]), None);
    assert_eq!(decode_line(&[b'a', 0xc3]), None);
    assert_eq!(decode_line(&[0xed, 0xa0, 0x80]), None);
}

#[test]
fn complete_part_ends_with_the_last_line_feed() {
    assert_eq!(complete_part(b""), 0);
    assert_eq!(complete_part(b"no line feed"), 0);
    assert_eq!(complete_part(b"a\n"), 2);
    assert_eq!(complete_part(b"a\nbc"), 2);
    assert_eq!(complete_part(b"a\nbc\n\nd"), 6);
    assert_eq!(complete_part(b"\n"), 1);
}
