//! The line model of a text: a sequence of characters seen as lines
//! separated by `'\n'`.
use vstd::prelude::*;

verus! {

/// `s` holds no line break.
pub open spec fn no_break(s: Seq<char>) -> bool {
    forall|i: int| 0 <= i < s.len() ==> s[i] != '\n'
}

/// No line of `ls` holds a line break.
pub open spec fn break_free(ls: Seq<Seq<char>>) -> bool {
    forall|k: int| 0 <= k < ls.len() ==> no_break(#[trigger] ls[k])
}

/// Index of the first line break of `s`, or its length when it has none.
pub open spec fn first_break(s: Seq<char>) -> int
    decreases s.len(),
{
    if s.len() == 0 {
        0
    } else if s[0] == '\n' {
        0
    } else {
        1 + first_break(s.drop_first())
    }
}

/// The lines of `s`: the pieces between its line breaks. A text with `k`
/// line breaks has `k + 1` lines; the empty text has one empty line.
pub open spec fn split_lines(s: Seq<char>) -> Seq<Seq<char>>
    decreases s.len(),
{
    let k = first_break(s);
    if !(0 <= k < s.len()) {
        seq![s]
    } else {
        seq![s.take(k)] + split_lines(s.skip(k + 1))
    }
}

/// The text made of the lines `ls`, with a line break between each two.
pub open spec fn join_lines(ls: Seq<Seq<char>>) -> Seq<char>
    decreases ls.len(),
{
    if ls.len() == 0 {
        Seq::empty()
    } else if ls.len() == 1 {
        ls[0]
    } else {
        ls[0] + seq!['\n'] + join_lines(ls.drop_first())
    }
}

/// Character offset at which line `i` of `join_lines(ls)` starts.
pub open spec fn line_start(ls: Seq<Seq<char>>, i: int) -> int
    decreases i,
{
    if i <= 0 || ls.len() == 0 {
        0
    } else {
        ls[0].len() + 1 + line_start(ls.drop_first(), i - 1)
    }
}

/// The lines `ls` with line `l` cut in two at column `c`.
pub open spec fn split_line_at(ls: Seq<Seq<char>>, l: int, c: int) -> Seq<Seq<char>> {
    ls.take(l) + seq![ls[l].take(c), ls[l].skip(c)] + ls.skip(l + 1)
}

pub proof fn lemma_first_break_bounds(s: Seq<char>)
    ensures
        0 <= first_break(s) <= s.len(),
        forall|j: int| 0 <= j < first_break(s) ==> s[j] != '\n',
        first_break(s) < s.len() ==> s[first_break(s)] == '\n',
    decreases s.len(),
{
    if s.len() > 0 && s[0] != '\n' {
        lemma_first_break_bounds(s.drop_first());
        assert forall|j: int| 0 <= j < first_break(s) implies s[j] != '\n' by {
            if j > 0 {
                assert(s[j] == s.drop_first()[j - 1]);
            }
        }
    }
}

pub proof fn lemma_first_break_of(a: Seq<char>, b: Seq<char>)
    requires
        no_break(a),
        b.len() == 0 || b[0] == '\n',
    ensures
        first_break(a + b) == a.len(),
    decreases a.len(),
{
    if a.len() > 0 {
        assert((a + b).drop_first() =~= a.drop_first() + b);
        lemma_first_break_of(a.drop_first(), b);
    } else {
        assert(a + b =~= b);
    }
}

/// Splitting the text of break-free lines gives those lines back.
pub proof fn lemma_split_join(ls: Seq<Seq<char>>)
    requires
        ls.len() >= 1,
        break_free(ls),
    ensures
        split_lines(join_lines(ls)) == ls,
    decreases ls.len(),
{
    if ls.len() == 1 {
        assert(no_break(ls[0]));
        lemma_first_break_of(ls[0], Seq::empty());
        assert(ls[0] + Seq::<char>::empty() =~= ls[0]);
        assert(seq![ls[0]] =~= ls);
    } else {
        let d = ls.drop_first();
        let j = join_lines(d);
        let s = join_lines(ls);
        assert(no_break(ls[0]));
        assert(s =~= ls[0] + (seq!['\n'] + j));
        lemma_first_break_of(ls[0], seq!['\n'] + j);
        assert(s.take(ls[0].len() as int) =~= ls[0]);
        assert(s.skip(ls[0].len() + 1int) =~= j);
        assert forall|k: int| 0 <= k < d.len() implies no_break(#[trigger] d[k]) by {
            assert(d[k] == ls[k + 1]);
        }
        lemma_split_join(d);
        assert(seq![ls[0]] + d =~= ls);
    }
}

/// The lines of a text are break-free, there is at least one, and joining
/// them gives the text back.
pub proof fn lemma_join_split(s: Seq<char>)
    ensures
        split_lines(s).len() >= 1,
        break_free(split_lines(s)),
        join_lines(split_lines(s)) == s,
    decreases s.len(),
{
    lemma_first_break_bounds(s);
    let k = first_break(s);
    if k < s.len() {
        let t = s.take(k);
        let r = split_lines(s.skip(k + 1));
        lemma_join_split(s.skip(k + 1));
        let ls = seq![t] + r;
        assert(ls.drop_first() =~= r);
        assert(ls[0] == t);
        assert(s =~= t + seq!['\n'] + s.skip(k + 1));
        assert forall|i: int| 0 <= i < ls.len() implies no_break(#[trigger] ls[i]) by {
            if i > 0 {
                assert(ls[i] == r[i - 1]);
            }
        }
    }
}

/// Replacing line `l` by `x` replaces, in the joined text, the characters of
/// that line by `x`.
pub proof fn lemma_replace_line(ls: Seq<Seq<char>>, l: int, x: Seq<char>)
    requires
        0 <= l < ls.len(),
    ensures
        0 <= line_start(ls, l),
        line_start(ls, l) + ls[l].len() <= join_lines(ls).len(),
        join_lines(ls.update(l, x)) == join_lines(ls).take(line_start(ls, l)) + x + join_lines(
            ls,
        ).skip(line_start(ls, l) + ls[l].len()),
    decreases l,
{
    let s = join_lines(ls);
    let u = ls.update(l, x);
    if ls.len() == 1 {
        assert(s.take(0) + x + s.skip(ls[0].len() as int) =~= x);
    } else {
        let d = ls.drop_first();
        let j = join_lines(d);
        if l == 0 {
            assert(u.drop_first() =~= d);
            assert(s.take(0) + x + s.skip(ls[0].len() as int) =~= x + seq!['\n'] + j);
        } else {
            lemma_replace_line(d, l - 1, x);
            assert(u.drop_first() =~= d.update(l - 1, x));
            let st = line_start(d, l - 1);
            let h = ls[0] + seq!['\n'];
            assert(s =~= h + j);
            assert(s.take(h.len() + st) =~= h + j.take(st));
            assert(s.skip(h.len() + st + ls[l].len()) =~= j.skip(st + d[l - 1].len()));
            assert(join_lines(u) =~= h + (j.take(st) + x + j.skip(st + d[l - 1].len())));
        }
    }
}

/// Each line starts one past the end of the line before it.
pub proof fn lemma_line_start_next(ls: Seq<Seq<char>>, i: int)
    requires
        0 <= i,
        i + 1 < ls.len(),
    ensures
        line_start(ls, i + 1) == line_start(ls, i) + ls[i].len() + 1,
    decreases i,
{
    let d = ls.drop_first();
    if i > 0 {
        lemma_line_start_next(d, i - 1);
        assert(d[i - 1] == ls[i]);
    } else {
        assert(line_start(d, 0) == 0);
    }
}

/// The last line ends where the joined text ends.
pub proof fn lemma_last_line_end(ls: Seq<Seq<char>>)
    requires
        ls.len() >= 1,
    ensures
        line_start(ls, ls.len() - 1) + ls[ls.len() - 1].len() == join_lines(ls).len(),
    decreases ls.len(),
{
    if ls.len() > 1 {
        lemma_last_line_end(ls.drop_first());
    }
}

/// Line `l` is the stretch of the joined text that starts at its offset.
pub proof fn lemma_line_in_text(ls: Seq<Seq<char>>, l: int)
    requires
        0 <= l < ls.len(),
    ensures
        0 <= line_start(ls, l),
        line_start(ls, l) + ls[l].len() <= join_lines(ls).len(),
        join_lines(ls).subrange(line_start(ls, l), line_start(ls, l) + ls[l].len()) == ls[l],
{
    lemma_replace_line(ls, l, ls[l]);
    assert(ls.update(l, ls[l]) =~= ls);
    let s = join_lines(ls);
    let st = line_start(ls, l);
    let n = ls[l].len();
    assert forall|i: int| 0 <= i < n implies s.subrange(st, st + n)[i] == ls[l][i] by {
        assert(s[st + i] == (s.take(st) + ls[l] + s.skip(st + n))[st + i]);
    }
    assert(s.subrange(st, st + n) =~= ls[l]);
}

/// A line holding a line break joins to the same text as the two lines it
/// would split into.
pub proof fn lemma_join_broken_line(ls: Seq<Seq<char>>, l: int, a: Seq<char>, b: Seq<char>)
    requires
        0 <= l < ls.len(),
    ensures
        join_lines(ls.update(l, a + seq!['\n'] + b)) == join_lines(
            ls.take(l) + seq![a, b] + ls.skip(l + 1),
        ),
    decreases l,
{
    let u = ls.update(l, a + seq!['\n'] + b);
    let v = ls.take(l) + seq![a, b] + ls.skip(l + 1);
    if l == 0 {
        let w = seq![b] + ls.skip(1);
        assert(v =~= seq![a] + w);
        assert(v.drop_first() =~= w);
        assert(v[0] == a);
        assert(w[0] == b);
        assert(join_lines(v) == a + seq!['\n'] + join_lines(w));
        if ls.len() == 1 {
            assert(w =~= seq![b]);
            assert(join_lines(w) == b);
            assert(u[0] == a + seq!['\n'] + b);
            assert(join_lines(u) =~= join_lines(v));
        } else {
            let j = join_lines(ls.drop_first());
            assert(w.drop_first() =~= ls.drop_first());
            assert(u.drop_first() =~= ls.drop_first());
            assert(join_lines(w) == b + seq!['\n'] + j);
            assert(join_lines(u) == (a + seq!['\n'] + b) + seq!['\n'] + j);
            assert(join_lines(u) =~= join_lines(v));
        }
    } else {
        let d = ls.drop_first();
        lemma_join_broken_line(d, l - 1, a, b);
        assert(u.drop_first() =~= d.update(l - 1, a + seq!['\n'] + b));
        assert(v.drop_first() =~= d.take(l - 1) + seq![a, b] + d.skip(l));
        assert(v[0] == ls[0]);
        assert(u[0] == ls[0]);
        assert(join_lines(u) == ls[0] + seq!['\n'] + join_lines(u.drop_first()));
        assert(join_lines(v) == ls[0] + seq!['\n'] + join_lines(v.drop_first()));
    }
}

/// Inserting `t` at column `c` of line `l` in the joined text is the same as
/// joining the lines after that line has `t` inserted.
pub proof fn lemma_insert_in_line(ls: Seq<Seq<char>>, l: int, c: int, t: Seq<char>)
    requires
        0 <= l < ls.len(),
        0 <= c <= ls[l].len(),
    ensures
        0 <= line_start(ls, l) + c <= join_lines(ls).len(),
        join_lines(ls).take(line_start(ls, l) + c) + t + join_lines(ls).skip(line_start(ls, l) + c)
            == join_lines(ls.update(l, ls[l].take(c) + t + ls[l].skip(c))),
{
    let s = join_lines(ls);
    let st = line_start(ls, l);
    let n = ls[l].len();
    let x = ls[l].take(c) + t + ls[l].skip(c);
    lemma_line_in_text(ls, l);
    lemma_replace_line(ls, l, x);
    let lhs = s.take(st + c) + t + s.skip(st + c);
    let rhs = s.take(st) + x + s.skip(st + n);
    assert(s.take(st + c) =~= s.take(st) + ls[l].take(c)) by {
        assert forall|i: int| st <= i < st + c implies s[i] == ls[l][i - st] by {
            assert(s[i] == s.subrange(st, st + n)[i - st]);
        }
    }
    assert(s.skip(st + c) =~= ls[l].skip(c) + s.skip(st + n)) by {
        assert forall|i: int| st + c <= i < st + n implies s[i] == ls[l][i - st] by {
            assert(s[i] == s.subrange(st, st + n)[i - st]);
        }
    }
    assert(lhs =~= rhs);
}

/// Removing the character at column `c` of line `l` from the joined text is
/// the same as joining the lines after that line lost it.
pub proof fn lemma_remove_in_line(ls: Seq<Seq<char>>, l: int, c: int)
    requires
        0 <= l < ls.len(),
        0 <= c < ls[l].len(),
    ensures
        0 <= line_start(ls, l) + c < join_lines(ls).len(),
        join_lines(ls).take(line_start(ls, l) + c) + join_lines(ls).skip(line_start(ls, l) + c + 1)
            == join_lines(ls.update(l, ls[l].remove(c))),
{
    let s = join_lines(ls);
    let st = line_start(ls, l);
    let n = ls[l].len();
    let x = ls[l].remove(c);
    lemma_line_in_text(ls, l);
    lemma_replace_line(ls, l, x);
    assert(x =~= ls[l].take(c) + ls[l].skip(c + 1));
    assert(s.take(st + c) =~= s.take(st) + ls[l].take(c)) by {
        assert forall|i: int| st <= i < st + c implies s[i] == ls[l][i - st] by {
            assert(s[i] == s.subrange(st, st + n)[i - st]);
        }
    }
    assert(s.skip(st + c + 1) =~= ls[l].skip(c + 1) + s.skip(st + n)) by {
        assert forall|i: int| st + c + 1 <= i < st + n implies s[i] == ls[l][i - st] by {
            assert(s[i] == s.subrange(st, st + n)[i - st]);
        }
    }
    assert(s.take(st + c) + s.skip(st + c + 1) =~= s.take(st) + x + s.skip(st + n));
}

/// Replacing a line of break-free lines by a break-free line: the lines of
/// the joined result are the updated lines.
pub proof fn lemma_lines_after_update(ls: Seq<Seq<char>>, l: int, x: Seq<char>)
    requires
        0 <= l < ls.len(),
        break_free(ls),
        no_break(x),
    ensures
        split_lines(join_lines(ls.update(l, x))) == ls.update(l, x),
{
    let u = ls.update(l, x);
    assert forall|k: int| 0 <= k < u.len() implies no_break(#[trigger] u[k]) by {
        if k != l {
            assert(u[k] == ls[k]);
        }
    }
    lemma_split_join(u);
}

/// Putting a line break at column `c` of line `l`: the lines of the joined
/// result are the lines with line `l` cut in two there.
pub proof fn lemma_lines_after_break(ls: Seq<Seq<char>>, l: int, c: int)
    requires
        0 <= l < ls.len(),
        0 <= c <= ls[l].len(),
        break_free(ls),
    ensures
        split_lines(join_lines(ls.update(l, ls[l].take(c) + seq!['\n'] + ls[l].skip(c))))
            == split_line_at(ls, l, c),
{
    let a = ls[l].take(c);
    let b = ls[l].skip(c);
    let v = split_line_at(ls, l, c);
    lemma_join_broken_line(ls, l, a, b);
    assert(no_break(ls[l]));
    assert forall|k: int| 0 <= k < v.len() implies no_break(#[trigger] v[k]) by {
        if k < l {
            assert(v[k] == ls[k]);
        } else if k > l + 1 {
            assert(v[k] == ls[k - 1]);
        } else if k == l {
            assert(v[k] == a);
            assert forall|i: int| 0 <= i < a.len() implies a[i] != '\n' by {
                assert(a[i] == ls[l][i]);
            }
        } else {
            assert(v[k] == b);
            assert forall|i: int| 0 <= i < b.len() implies b[i] != '\n' by {
                assert(b[i] == ls[l][i + c]);
            }
        }
    }
    lemma_split_join(v);
}

} // verus!
