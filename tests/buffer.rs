use vimrs::buffer::{Buffer, BufferError};

fn lines_of(b: &Buffer) -> Vec<String> {
    b.lines()
}

#[test]
fn load_two_lines() {
    let b = Buffer::from_text("notes.txt", "hello\nworld");
    assert_eq!(b.len(), 2);
    assert_eq!(b.get(0), Some("hello".to_string()));
    assert_eq!(b.get(1), Some("world".to_string()));
    assert_eq!(b.get(2), None);
    assert_eq!(b.path, "notes.txt");
    assert!(!b.dirty);
}

#[test]
fn load_empty_and_trailing_break() {
    let b = Buffer::from_text("e", "");
    assert_eq!(b.len(), 1);
    assert_eq!(b.get(0), Some(String::new()));
    assert_eq!(b.line_len(0), Ok(0));
    let t = Buffer::from_text("t", "a\n");
    assert_eq!(t.len(), 2);
    assert_eq!(lines_of(&t), vec!["a".to_string(), String::new()]);
}

#[test]
fn carriage_return_stays_in_line() {
    let b = Buffer::from_text("w", "ab\r\ncd");
    assert_eq!(b.len(), 2);
    assert_eq!(b.get(0), Some("ab\r".to_string()));
    assert_eq!(b.line_len(0), Ok(3));
}

#[test]
fn line_len_excludes_break() {
    let b = Buffer::from_text("x", "abc\nde\n\nxyz");
    assert_eq!(b.line_len(0), Ok(3));
    assert_eq!(b.line_len(1), Ok(2));
    assert_eq!(b.line_len(2), Ok(0));
    assert_eq!(b.line_len(3), Ok(3));
    assert_eq!(b.line_len(4), Err(BufferError::OutOfRange));
}

#[test]
fn unicode_columns_count_chars() {
    let mut b = Buffer::from_text("u", "héllo\nwörld");
    assert_eq!(b.line_len(0), Ok(5));
    assert_eq!(b.insert_char(1, 2, 'ß'), Ok(()));
    assert_eq!(b.get(1), Some("wößrld".to_string()));
}

#[test]
fn insert_char_in_middle() {
    let mut b = Buffer::from_text("x", "abc\nde");
    assert_eq!(b.insert_char(1, 1, 'Z'), Ok(()));
    assert_eq!(lines_of(&b), vec!["abc".to_string(), "dZe".to_string()]);
    assert!(b.dirty);
}

#[test]
fn insert_char_at_line_end() {
    let mut b = Buffer::from_text("x", "abc\nde");
    assert_eq!(b.insert_char(0, 3, '!'), Ok(()));
    assert_eq!(lines_of(&b), vec!["abc!".to_string(), "de".to_string()]);
}

#[test]
fn insert_char_line_break_splits() {
    let mut b = Buffer::from_text("x", "abcdef");
    assert_eq!(b.insert_char(0, 4, '\n'), Ok(()));
    assert_eq!(lines_of(&b), vec!["abcd".to_string(), "ef".to_string()]);
}

#[test]
fn insert_char_out_of_range() {
    let mut b = Buffer::from_text("x", "abc");
    assert_eq!(b.insert_char(0, 4, 'q'), Err(BufferError::OutOfRange));
    assert_eq!(b.insert_char(1, 0, 'q'), Err(BufferError::OutOfRange));
    assert_eq!(b.get(0), Some("abc".to_string()));
    assert!(!b.dirty);
}

#[test]
fn insert_then_remove_restores_line() {
    let mut b = Buffer::from_text("x", "abc\nde");
    assert_eq!(b.insert_char(0, 1, 'Q'), Ok(()));
    assert_eq!(b.get(0), Some("aQbc".to_string()));
    assert_eq!(b.remove_char(0, 1), Ok(()));
    assert_eq!(lines_of(&b), vec!["abc".to_string(), "de".to_string()]);
    assert!(b.dirty);
}

#[test]
fn remove_char_bounds() {
    let mut b = Buffer::from_text("x", "abc\nde");
    assert_eq!(b.remove_char(0, 3), Err(BufferError::OutOfRange));
    assert_eq!(b.remove_char(2, 0), Err(BufferError::OutOfRange));
    assert_eq!(b.len(), 2);
    assert_eq!(b.remove_char(1, 1), Ok(()));
    assert_eq!(lines_of(&b), vec!["abc".to_string(), "d".to_string()]);
}

#[test]
fn insert_text_line_break_splits() {
    let mut b = Buffer::from_text("x", "abcdef\nrest");
    assert_eq!(b.insert_text(0, 2, "\n"), Ok(()));
    assert_eq!(
        lines_of(&b),
        vec!["ab".to_string(), "cdef".to_string(), "rest".to_string()]
    );
    let joined = format!("{}{}", b.get(0).unwrap(), b.get(1).unwrap());
    assert_eq!(joined, "abcdef");
}

#[test]
fn insert_text_several_lines() {
    let mut b = Buffer::from_text("x", "ad");
    assert_eq!(b.insert_text(0, 1, "b\nc"), Ok(()));
    assert_eq!(lines_of(&b), vec!["ab".to_string(), "cd".to_string()]);
}

#[test]
fn insert_empty_text_marks_dirty() {
    let mut b = Buffer::from_text("x", "abc");
    assert_eq!(b.insert_text(0, 1, ""), Ok(()));
    assert_eq!(b.get(0), Some("abc".to_string()));
    assert!(b.dirty);
    assert_eq!(b.insert_text(0, 9, "z"), Err(BufferError::OutOfRange));
}

#[test]
fn load_bytes_two_lines() {
    let b = Buffer::from_bytes("notes.txt", b"hello\nworld".to_vec()).unwrap();
    assert_eq!(b.len(), 2);
    assert_eq!(b.get(0), Some("hello".to_string()));
    assert_eq!(b.get(1), Some("world".to_string()));
    assert!(!b.dirty);
}

#[test]
fn load_bytes_multibyte() {
    let b = Buffer::from_bytes("u", "é\n→x".as_bytes().to_vec()).unwrap();
    assert_eq!(b.line_len(0), Ok(1));
    assert_eq!(b.line_len(1), Ok(2));
}

#[test]
fn load_bytes_invalid_utf8() {
    let r = Buffer::from_bytes("bad", vec![0x61, 0xff, 0x0a]);
    assert!(matches!(r, Err(BufferError::InvalidText)));
}
