use sshd_command::frontmatter::FrontMatterError;
use sshd_command::split::{find_line_end, split_front_matter, Frame};

fn frame(block_start: usize, block_end: usize, body_start: usize) -> Frame {
    Frame { block_start, block_end, body_start }
}

#[test]
fn block_and_body_are_found() {
    assert_eq!(split_front_matter(b"---\na: 1\n---\nbody\n"), Ok(frame(4, 9, 13)));
    assert_eq!(split_front_matter(b"---\n---\n"), Ok(frame(4, 4, 8)));
    assert_eq!(split_front_matter(b"---\n---"), Ok(frame(4, 4, 7)));
    assert_eq!(split_front_matter(b"---\na\nb\n---\n---\nrest"), Ok(frame(4, 8, 12)));
}

#[test]
fn carriage_return_belongs_to_the_terminator() {
    assert_eq!(split_front_matter(b"---\r\na: 1\r\n---\r\nbody"), Ok(frame(5, 11, 16)));
    assert_eq!(
        split_front_matter(b"---\r"),
        Err(FrontMatterError::InvalidFirstLine)
    );
    assert_eq!(
        split_front_matter(b"---\r\r\n---\n"),
        Err(FrontMatterError::InvalidFirstLine)
    );
}

#[test]
fn first_line_must_be_the_separator() {
    for input in [
        &b""[..],
        b"\n---\n---\n",
        b"--\n---\n",
        b"----\n---\n",
        b"--- \n---\n",
        b" ---\n---\n",
        b"a: 1\n---\n",
        b"---a\n---\n",
    ] {
        assert_eq!(split_front_matter(input), Err(FrontMatterError::InvalidFirstLine));
    }
}

#[test]
fn a_second_separator_line_must_follow() {
    for input in [
        &b"---"[..],
        b"---\n",
        b"---\na: 1\n",
        b"---\na: 1\n--- \n",
        b"---\na: 1\n ---\n",
        b"---\na: ---\n",
        b"---\n----\n",
        b"---\n--- ---\nbody",
    ] {
        assert_eq!(split_front_matter(input), Err(FrontMatterError::MissingEndSeparator));
    }
}

#[test]
fn the_body_is_the_rest_of_the_input() {
    let input = b"---\nkey: value\n---\nnext-line\n\x00\xff ---\n";
    let frame = split_front_matter(input).unwrap();
    assert_eq!(&input[frame.block_start..frame.block_end], b"key: value\n");
    assert_eq!(&input[frame.body_start..], b"next-line\n\x00\xff ---\n");
}

#[test]
fn lines_end_behind_their_line_feed() {
    assert_eq!(find_line_end(b"ab\ncd", 0), 3);
    assert_eq!(find_line_end(b"ab\ncd", 1), 3);
    assert_eq!(find_line_end(b"ab\ncd", 3), 5);
    assert_eq!(find_line_end(b"ab\ncd", 5), 5);
    assert_eq!(find_line_end(b"\n\n", 0), 1);
    assert_eq!(find_line_end(b"ab", 7), 2);
}
