//! The rope that stores a buffer's text, and the calls into it.
use crate::lines::{line_start, split_lines};
use ropey::Rope;
use vstd::prelude::*;

verus! {

#[verifier::external_type_specification]
#[verifier::external_body]
pub struct ExRope(Rope);

/// The characters that a rope holds, in order.
pub uninterp spec fn rope_chars(r: Rope) -> Seq<char>;

/// Relies on `Rope::from_str`: the rope holds the characters of `s`.
#[verifier::external_body]
pub(crate) fn rope_from_str(s: &str) -> (r: Rope)
    ensures
        rope_chars(r) == s@,
{
    Rope::from_str(s)
}

/// Relies on `Rope::len_chars`: the number of characters held.
#[verifier::external_body]
pub(crate) fn rope_len_chars(r: &Rope) -> (n: usize)
    ensures
        n == rope_chars(*r).len(),
{
    r.len_chars()
}

/// Relies on `Rope::len_lines`: one more than the number of line breaks,
/// which (built without the `cr_lines` and `unicode_lines` features) are the
/// `'\n'` characters alone.
#[verifier::external_body]
pub(crate) fn rope_len_lines(r: &Rope) -> (n: usize)
    ensures
        n == split_lines(rope_chars(*r)).len(),
{
    r.len_lines()
}

/// Relies on `Rope::line_to_char`: the character offset at which line `i`
/// starts; it panics only past `len_lines()`.
#[verifier::external_body]
pub(crate) fn rope_line_to_char(r: &Rope, i: usize) -> (n: usize)
    requires
        i < split_lines(rope_chars(*r)).len(),
    ensures
        n == line_start(split_lines(rope_chars(*r)), i as int),
{
    r.line_to_char(i)
}

/// Relies on `Rope::insert_char`: `ch` is inserted at character offset `at`;
/// it panics only past `len_chars()`.
#[verifier::external_body]
pub(crate) fn rope_insert_char(r: &mut Rope, at: usize, ch: char)
    requires
        at <= rope_chars(*old(r)).len(),
    ensures
        rope_chars(*final(r)) == rope_chars(*old(r)).insert(at as int, ch),
{
    r.insert_char(at, ch)
}

/// Relies on `Rope::insert`: the characters of `text` are inserted at
/// character offset `at`; it panics only past `len_chars()`.
#[verifier::external_body]
pub(crate) fn rope_insert(r: &mut Rope, at: usize, text: &str)
    requires
        at <= rope_chars(*old(r)).len(),
    ensures
        rope_chars(*final(r)) == rope_chars(*old(r)).take(at as int) + text@ + rope_chars(
            *old(r),
        ).skip(at as int),
{
    r.insert(at, text)
}

/// Relies on `Rope::remove`: the characters at offsets `start..end` are
/// taken out; it panics only on a reversed range or one past `len_chars()`.
#[verifier::external_body]
pub(crate) fn rope_remove(r: &mut Rope, start: usize, end: usize)
    requires
        start <= end <= rope_chars(*old(r)).len(),
    ensures
        rope_chars(*final(r)) == rope_chars(*old(r)).take(start as int) + rope_chars(*old(r)).skip(
            end as int,
        ),
{
    r.remove(start..end)
}

/// Relies on `Rope::slice` and `From<RopeSlice> for String`: the characters
/// at offsets `start..end`, as a string.
#[verifier::external_body]
pub(crate) fn rope_slice_string(r: &Rope, start: usize, end: usize) -> (s: String)
    requires
        start <= end <= rope_chars(*r).len(),
    ensures
        s@ == rope_chars(*r).subrange(start as int, end as int),
{
    String::from(r.slice(start..end))
}

} // verus!
