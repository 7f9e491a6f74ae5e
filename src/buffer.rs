//! The text buffer: a file's text, addressed by line and column.
use crate::lines::{
    lemma_insert_in_line, lemma_join_broken_line, lemma_join_split,
    lemma_last_line_end, lemma_line_in_text, lemma_line_start_next, lemma_lines_after_break,
    lemma_lines_after_update, lemma_remove_in_line, line_start, no_break, split_line_at, split_lines,
};
use crate::rope::{
    rope_chars, rope_from_str, rope_insert, rope_insert_char, rope_len_chars, rope_len_lines,
    rope_line_to_char, rope_remove, rope_slice_string,
};
use ropey::Rope;
use vstd::prelude::*;

verus! {

/// Why a buffer refused an operation.
#[derive(Debug, Clone, Copy, PartialEq, Eq, Structural)]
pub enum BufferError {
    /// The line or the column lies outside the text.
    OutOfRange,
    /// The bytes were not well-formed UTF-8.
    InvalidText,
}

/// The text that the bytes `b` encode as UTF-8; `None` where they are not
/// well-formed UTF-8.
pub uninterp spec fn utf8_text(b: Seq<u8>) -> Option<Seq<char>>;

/// Relies on `String::from_utf8`: it succeeds exactly on well-formed UTF-8,
/// and then holds the characters that the bytes encode.
#[verifier::external_body]
fn decode_utf8(b: Vec<u8>) -> (r: Option<String>)
    ensures
        r.is_some() == utf8_text(b@).is_some(),
        r.is_some() ==> r.unwrap()@ == utf8_text(b@).unwrap(),
{
    match String::from_utf8(b) {
        Ok(s) => Some(s),
        Err(_) => None,
    }
}

/// The text of one file, with the path it came from and whether it was
/// changed since it was loaded.
pub struct Buffer {
    pub path: String,
    pub text: Rope,
    pub dirty: bool,
}

impl View for Buffer {
    type V = Seq<Seq<char>>;

    /// The lines of the text, without their line breaks.
    open spec fn view(&self) -> Seq<Seq<char>> {
        split_lines(rope_chars(self.text))
    }
}

impl Buffer {
    /// All characters of the text, line breaks included.
    pub open spec fn chars(&self) -> Seq<char> {
        rope_chars(self.text)
    }

    /// Character offset of column `x` of line `l`.
    pub open spec fn offset(&self, l: int, x: int) -> int {
        line_start(self@, l) + x
    }

    /// A buffer holding `text`, loaded from `path`, not yet changed.
    pub fn from_text(path: &str, text: &str) -> (b: Buffer)
        ensures
            b.path@ == path@,
            b.chars() == text@,
            b@ == split_lines(text@),
            !b.dirty,
    {
        Buffer { path: path.to_string(), text: rope_from_str(text), dirty: false }
    }

    /// A buffer holding the text that `bytes` encode as UTF-8, loaded from
    /// `path`; `InvalidText` where they are not well-formed UTF-8.
    pub fn from_bytes(path: &str, bytes: Vec<u8>) -> (r: Result<Buffer, BufferError>)
        ensures
            r.is_ok() == utf8_text(bytes@).is_some(),
            r.is_ok() ==> r.unwrap().path@ == path@ && r.unwrap().chars() == utf8_text(
                bytes@,
            ).unwrap() && r.unwrap()@ == split_lines(utf8_text(bytes@).unwrap()) && !r.unwrap().dirty,
            r.is_err() ==> r == Err::<Buffer, BufferError>(BufferError::InvalidText),
    {
        match decode_utf8(bytes) {
            Some(text) => Ok(Buffer::from_text(path, text.as_str())),
            None => Err(BufferError::InvalidText),
        }
    }

    /// Number of lines; never zero.
    pub fn len(&self) -> (n: usize)
        ensures
            n == self@.len(),
            n >= 1,
    {
        proof {
            lemma_join_split(self.chars());
        }
        rope_len_lines(&self.text)
    }

    /// Offsets at which line `i` starts and ends, its line break left out.
    fn line_bounds(&self, i: usize) -> (r: (usize, usize))
        requires
            i < self@.len(),
        ensures
            r.0 == line_start(self@, i as int),
            r.1 == r.0 + self@[i as int].len(),
            r.1 <= self.chars().len(),
            self.chars().subrange(r.0 as int, r.1 as int) == self@[i as int],
    {
        let ls = Ghost(self@);
        proof {
            lemma_join_split(self.chars());
            lemma_line_in_text(ls@, i as int);
        }
        let start = rope_line_to_char(&self.text, i);
        let n = rope_len_lines(&self.text);
        if i + 1 < n {
            proof {
                lemma_line_start_next(ls@, i as int);
            }
            let next = rope_line_to_char(&self.text, i + 1);
            (start, next - 1)
        } else {
            proof {
                lemma_last_line_end(ls@);
            }
            (start, rope_len_chars(&self.text))
        }
    }

    /// The text of line `line`, without its line break; `None` past the
    /// last line.
    pub fn get(&self, line: usize) -> (r: Option<String>)
        ensures
            line < self@.len() <==> r.is_some(),
            r.is_some() ==> r.unwrap()@ == self@[line as int],
    {
        if line < self.len() {
            let (start, end) = self.line_bounds(line);
            Some(rope_slice_string(&self.text, start, end))
        } else {
            None
        }
    }

    /// The text of every line, in order, without line breaks.
    pub fn lines(&self) -> (r: Vec<String>)
        ensures
            r@.len() == self@.len(),
            forall|i: int| 0 <= i < r@.len() ==> (#[trigger] r@[i])@ == self@[i],
    {
        let n = self.len();
        let mut r: Vec<String> = Vec::new();
        let mut i: usize = 0;
        while i < n
            invariant
                n == self@.len(),
                i <= n,
                r@.len() == i,
                forall|k: int| 0 <= k < i ==> (#[trigger] r@[k])@ == self@[k],
            decreases n - i,
        {
            let (start, end) = self.line_bounds(i);
            r.push(rope_slice_string(&self.text, start, end));
            i += 1;
        }
        r
    }

    /// Number of characters of line `line`, its line break left out.
    pub fn line_len(&self, line: usize) -> (r: Result<usize, BufferError>)
        ensures
            line < self@.len() <==> r.is_ok(),
            r.is_ok() ==> r.unwrap() == self@[line as int].len(),
            r.is_err() ==> r == Err::<usize, BufferError>(BufferError::OutOfRange),
    {
        if line < self.len() {
            let (start, end) = self.line_bounds(line);
            Ok(end - start)
        } else {
            Err(BufferError::OutOfRange)
        }
    }
    /// Inserts `c` at column `x` of line `line`. Lines before and after stay
    /// as they were; a `'\n'` cuts the line in two.
    pub fn insert_char(&mut self, line: usize, x: usize, c: char) -> (r: Result<(), BufferError>)
        ensures
            r.is_ok() <==> (line < old(self)@.len() && x <= old(self)@[line as int].len()),
            r.is_ok() ==> final(self).chars() == old(self).chars().insert(
                old(self).offset(line as int, x as int),
                c,
            ),
            r.is_ok() && c != '\n' ==> final(self)@ == old(self)@.update(
                line as int,
                old(self)@[line as int].insert(x as int, c),
            ),
            r.is_ok() && c == '\n' ==> final(self)@ == split_line_at(
                old(self)@,
                line as int,
                x as int,
            ),
            r.is_ok() ==> final(self).dirty,
            r.is_err() ==> r == Err::<(), BufferError>(BufferError::OutOfRange) && final(self)@ == old(
                self,
            )@ && final(self).chars() == old(self).chars() && final(self).dirty == old(self).dirty,
            final(self).path == old(self).path,
    {
        if line >= self.len() {
            return Err(BufferError::OutOfRange);
        }
        let (start, end) = self.line_bounds(line);
        if x > end - start {
            return Err(BufferError::OutOfRange);
        }
        let ghost ls = self@;
        let ghost s = self.chars();
        let ghost l = line as int;
        proof {
            lemma_join_split(s);
            lemma_insert_in_line(ls, l, x as int, seq![c]);
            assert(s.insert(start + x, c) =~= s.take(start + x) + seq![c] + s.skip(start + x));
            if c != '\n' {
                assert(ls[l].insert(x as int, c) =~= ls[l].take(x as int) + seq![c] + ls[l].skip(
                    x as int,
                ));
                assert(no_break(ls[l]));
                assert(no_break(ls[l].insert(x as int, c)));
                lemma_lines_after_update(ls, l, ls[l].insert(x as int, c));
            } else {
                lemma_lines_after_break(ls, l, x as int);
            }
        }
        rope_insert_char(&mut self.text, start + x, c);
        self.dirty = true;
        Ok(())
    }

    /// Inserts `text` at column `x` of line `line`; its line breaks cut the
    /// line. An empty `text` changes nothing but the dirty mark.
    pub fn insert_text(&mut self, line: usize, x: usize, text: &str) -> (r: Result<
        (),
        BufferError,
    >)
        ensures
            r.is_ok() <==> (line < old(self)@.len() && x <= old(self)@[line as int].len()),
            r.is_ok() ==> final(self).chars() == old(self).chars().take(
                old(self).offset(line as int, x as int),
            ) + text@ + old(self).chars().skip(old(self).offset(line as int, x as int)),
            r.is_ok() && no_break(text@) ==> final(self)@ == old(self)@.update(
                line as int,
                old(self)@[line as int].take(x as int) + text@ + old(self)@[line as int].skip(
                    x as int,
                ),
            ),
            r.is_ok() && text@ == seq!['\n'] ==> final(self)@ == split_line_at(
                old(self)@,
                line as int,
                x as int,
            ),
            r.is_ok() ==> final(self).dirty,
            r.is_err() ==> r == Err::<(), BufferError>(BufferError::OutOfRange) && final(self)@ == old(
                self,
            )@ && final(self).chars() == old(self).chars() && final(self).dirty == old(self).dirty,
            final(self).path == old(self).path,
    {
        if line >= self.len() {
            return Err(BufferError::OutOfRange);
        }
        let (start, end) = self.line_bounds(line);
        if x > end - start {
            return Err(BufferError::OutOfRange);
        }
        let ghost ls = self@;
        let ghost s = self.chars();
        let ghost l = line as int;
        proof {
            lemma_join_split(s);
            lemma_insert_in_line(ls, l, x as int, text@);
            if no_break(text@) {
                let y = ls[l].take(x as int) + text@ + ls[l].skip(x as int);
                assert(no_break(ls[l]));
                assert forall|i: int| 0 <= i < y.len() implies y[i] != '\n' by {
                    if i < x {
                        assert(y[i] == ls[l][i]);
                    } else if i < x + text@.len() {
                        assert(y[i] == text@[i - x]);
                    } else {
                        assert(y[i] == ls[l][i - text@.len()]);
                    }
                }
                lemma_lines_after_update(ls, l, y);
            }
            if text@ == seq!['\n'] {
                lemma_lines_after_break(ls, l, x as int);
            }
        }
        rope_insert(&mut self.text, start + x, text);
        self.dirty = true;
        Ok(())
    }

    /// Removes the character at column `x` of line `line`; a column at or
    /// past the line's end is out of range.
    pub fn remove_char(&mut self, line: usize, x: usize) -> (r: Result<(), BufferError>)
        ensures
            r.is_ok() <==> (line < old(self)@.len() && x < old(self)@[line as int].len()),
            r.is_ok() ==> final(self).chars() == old(self).chars().remove(
                old(self).offset(line as int, x as int),
            ),
            r.is_ok() ==> final(self)@ == old(self)@.update(
                line as int,
                old(self)@[line as int].remove(x as int),
            ),
            r.is_ok() ==> final(self).dirty,
            r.is_err() ==> r == Err::<(), BufferError>(BufferError::OutOfRange) && final(self)@ == old(
                self,
            )@ && final(self).chars() == old(self).chars() && final(self).dirty == old(self).dirty,
            final(self).path == old(self).path,
    {
        if line >= self.len() {
            return Err(BufferError::OutOfRange);
        }
        let (start, end) = self.line_bounds(line);
        if x >= end - start {
            return Err(BufferError::OutOfRange);
        }
        let ghost ls = self@;
        let ghost s = self.chars();
        let ghost l = line as int;
        proof {
            lemma_join_split(s);
            lemma_remove_in_line(ls, l, x as int);
            assert(s.remove(start + x) =~= s.take(start + x) + s.skip(start + x + 1));
            let y = ls[l].remove(x as int);
            assert(no_break(ls[l]));
            assert forall|i: int| 0 <= i < y.len() implies y[i] != '\n' by {
                if i < x {
                    assert(y[i] == ls[l][i]);
                } else {
                    assert(y[i] == ls[l][i + 1]);
                }
            }
            lemma_lines_after_update(ls, l, y);
        }
        rope_remove(&mut self.text, start + x, start + x + 1);
        self.dirty = true;
        Ok(())
    }
}

/// Inserting a character other than a line break and then removing the
/// character at the same line and column gives back the same lines (and the
/// same text); the removal is in range.
pub proof fn lemma_insert_then_remove(ls: Seq<Seq<char>>, l: int, c: int, ch: char)
    requires
        0 <= l < ls.len(),
        0 <= c <= ls[l].len(),
        ch != '\n',
    ensures
        c < ls.update(l, ls[l].insert(c, ch))[l].len(),
        ls.update(l, ls[l].insert(c, ch)).update(
            l,
            ls.update(l, ls[l].insert(c, ch))[l].remove(c),
        ) == ls,
{
    assert(ls[l].insert(c, ch).remove(c) =~= ls[l]);
    assert(ls.update(l, ls[l].insert(c, ch)).update(l, ls[l]) =~= ls);
}

/// Inserting a character into a text and removing it again at the same
/// offset gives the text back.
pub proof fn lemma_insert_then_remove_chars(s: Seq<char>, i: int, ch: char)
    requires
        0 <= i <= s.len(),
    ensures
        s.insert(i, ch).remove(i) == s,
{
    assert(s.insert(i, ch).remove(i) =~= s);
}

/// Cutting line `l` at column `c` gives one more line: the part before the
/// cut, then the part after it, which together are the old line; the other
/// lines stay.
pub proof fn lemma_line_split(ls: Seq<Seq<char>>, l: int, c: int)
    requires
        0 <= l < ls.len(),
        0 <= c <= ls[l].len(),
    ensures
        split_line_at(ls, l, c).len() == ls.len() + 1,
        split_line_at(ls, l, c)[l] == ls[l].take(c),
        split_line_at(ls, l, c)[l + 1] == ls[l].skip(c),
        split_line_at(ls, l, c)[l] + split_line_at(ls, l, c)[l + 1] == ls[l],
        forall|k: int| 0 <= k < l ==> #[trigger] split_line_at(ls, l, c)[k] == ls[k],
        forall|k: int| l < k < ls.len() ==> #[trigger] split_line_at(ls, l, c)[k + 1] == ls[k],
{
    assert(ls[l].take(c) + ls[l].skip(c) =~= ls[l]);
}

} // verus!
