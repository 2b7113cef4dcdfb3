//! Texts as sequences of characters, and their division into lines.
//!
//! A text is modelled by its `Seq<char>`. A line ends at a line feed; a
//! carriage return directly before that line feed belongs to the line ending
//! as well. The last line needs no line ending, and a text that ends with a
//! line ending has no empty line after it.

use vstd::prelude::*;

verus! {

/// Whether `s` holds no line feed.
pub open spec fn single_line(s: Seq<char>) -> bool {
    forall|i: int| 0 <= i < s.len() ==> s[i] != '\n'
}

/// The number of characters of `s` before its first line feed: all of them
/// where it has none.
pub open spec fn first_break(s: Seq<char>) -> int
    decreases s.len(),
{
    if s.len() == 0 || s[0] == '\n' {
        0
    } else {
        1 + first_break(s.drop_first())
    }
}

/// `content` as a line of a text: with a line feed after it.
pub open spec fn line(content: Seq<char>) -> Seq<char> {
    content.push('\n')
}

/// `s` without the carriage return that it ends with, if it ends with one.
pub open spec fn strip_cr(s: Seq<char>) -> Seq<char> {
    if s.len() > 0 && s.last() == '\r' {
        s.drop_last()
    } else {
        s
    }
}

/// The lines of `s`, without their line endings.
pub open spec fn lines(s: Seq<char>) -> Seq<Seq<char>>
    decreases s.len(),
{
    let n = first_break(s);
    if s.len() == 0 {
        Seq::empty()
    } else if 0 <= n < s.len() {
        seq![strip_cr(s.subrange(0, n))] + lines(s.subrange(n + 1, s.len() as int))
    } else {
        seq![s]
    }
}

/// The lines `ls` with one line feed between each two neighbours.
pub open spec fn join_lines(ls: Seq<Seq<char>>) -> Seq<char>
    decreases ls.len(),
{
    if ls.len() == 0 {
        Seq::empty()
    } else if ls.len() == 1 {
        ls[0]
    } else {
        join_lines(ls.drop_last()).push('\n') + ls.last()
    }
}

/// `first_break(s)` is the one position up to which `s` has no line feed and
/// at which it has one or ends.
pub proof fn lemma_first_break(s: Seq<char>, k: int)
    requires
        0 <= k <= s.len(),
        single_line(s.subrange(0, k)),
        k < s.len() ==> s[k] == '\n',
    ensures
        first_break(s) == k,
    decreases k,
{
    if k > 0 {
        assert(s.subrange(0, k)[0] == s[0]);
        let t = s.drop_first();
        let u = t.subrange(0, k - 1);
        assert forall|i: int| 0 <= i < u.len() implies u[i] != '\n' by {
            assert(s.subrange(0, k)[i + 1] == u[i]);
        }
        lemma_first_break(t, k - 1);
    }
}

/// `s` has no line feed before `first_break(s)`, and has one there unless it
/// ends there.
pub proof fn lemma_first_break_bounds(s: Seq<char>)
    ensures
        0 <= first_break(s) <= s.len(),
        single_line(s.subrange(0, first_break(s))),
        first_break(s) < s.len() ==> s[first_break(s)] == '\n',
    decreases s.len(),
{
    if s.len() > 0 && s[0] != '\n' {
        lemma_first_break_bounds(s.drop_first());
        let head = s.subrange(0, first_break(s));
        let tail = s.drop_first().subrange(0, first_break(s.drop_first()));
        assert forall|i: int| 0 <= i < head.len() implies head[i] != '\n' by {
            if i > 0 {
                assert(head[i] == tail[i - 1]);
            }
        }
    }
}

/// No line of a text holds a line feed.
pub proof fn lemma_lines_single_line(s: Seq<char>)
    ensures
        forall|i: int| 0 <= i < lines(s).len() ==> single_line(#[trigger] lines(s)[i]),
    decreases s.len(),
{
    let n = first_break(s);
    lemma_first_break_bounds(s);
    if s.len() == 0 {
    } else if n < s.len() {
        let first = strip_cr(s.subrange(0, n));
        let rest = lines(s.subrange(n + 1, s.len() as int));
        lemma_lines_single_line(s.subrange(n + 1, s.len() as int));
        assert(single_line(first));
        assert forall|i: int| 0 <= i < lines(s).len() implies single_line(
            #[trigger] lines(s)[i],
        ) by {
            if i > 0 {
                assert(lines(s)[i] == rest[i - 1]);
            }
        }
    } else {
        assert(s.subrange(0, n) == s);
    }
}

/// A text made of a first line, a line feed and a rest has that line, less
/// its carriage return, before the lines of the rest.
pub proof fn lemma_lines_cons(head: Seq<char>, rest: Seq<char>)
    requires
        single_line(head),
    ensures
        lines(head.push('\n') + rest) == seq![strip_cr(head)] + lines(rest),
{
    let s = head.push('\n') + rest;
    let k = head.len() as int;
    assert(s.subrange(0, k) == head);
    lemma_first_break(s, k);
    assert(s.subrange(k + 1, s.len() as int) == rest);
}

/// A text without a line feed is its own single line, unless it is empty.
pub proof fn lemma_lines_last(s: Seq<char>)
    requires
        single_line(s),
    ensures
        lines(s) == if s.len() == 0 {
            Seq::<Seq<char>>::empty()
        } else {
            seq![s]
        },
{
    assert(s.subrange(0, s.len() as int) == s);
    lemma_first_break(s, s.len() as int);
}

/// Lines with line feeds between them begin with the first of the lines.
pub proof fn lemma_join_lines_first(ls: Seq<Seq<char>>)
    requires
        ls.len() > 0,
    ensures
        ls[0].is_prefix_of(join_lines(ls)),
    decreases ls.len(),
{
    if ls.len() > 1 {
        lemma_join_lines_first(ls.drop_last());
    }
}

/// Lines after a first line are joined to it by a line feed.
pub proof fn lemma_join_lines_cons(first: Seq<char>, rest: Seq<Seq<char>>)
    requires
        rest.len() > 0,
    ensures
        join_lines(seq![first] + rest) == line(first) + join_lines(rest),
    decreases rest.len(),
{
    let all = seq![first] + rest;
    assert(all.drop_last() == seq![first] + rest.drop_last());
    assert(all.last() == rest.last());
    if rest.len() > 1 {
        lemma_join_lines_cons(first, rest.drop_last());
    } else {
        assert(join_lines(rest) == rest[0]);
        assert(join_lines(all.drop_last()) == first);
    }
}

/// Whether `ls` are the lines of the text that they make when they are
/// joined: each is one line, none but the last ends with a carriage return,
/// and the last is not empty.
pub open spec fn stable(ls: Seq<Seq<char>>) -> bool {
    &&& forall|i: int| 0 <= i < ls.len() ==> single_line(#[trigger] ls[i])
    &&& forall|i: int| 0 <= i < ls.len() - 1 ==> strip_cr(#[trigger] ls[i]) == ls[i]
    &&& ls.len() > 0 ==> ls.last().len() > 0
}

/// Lines that are joined and divided again are what they were, if they are
/// stable.
pub proof fn lemma_lines_of_joined(ls: Seq<Seq<char>>)
    requires
        stable(ls),
    ensures
        lines(join_lines(ls)) == ls,
    decreases ls.len(),
{
    if ls.len() == 0 {
    } else if ls.len() == 1 {
        lemma_lines_last(ls[0]);
    } else {
        let rest = ls.drop_first();
        assert(ls == seq![ls[0]] + rest);
        assert(stable(rest)) by {
            assert forall|i: int| 0 <= i < rest.len() implies single_line(#[trigger] rest[i]) by {
                assert(rest[i] == ls[i + 1]);
            }
            assert forall|i: int| 0 <= i < rest.len() - 1 implies strip_cr(#[trigger] rest[i])
                == rest[i] by {
                assert(rest[i] == ls[i + 1]);
            }
            assert(rest.last() == ls.last());
        }
        lemma_join_lines_cons(ls[0], rest);
        lemma_lines_cons(ls[0], join_lines(rest));
        lemma_lines_of_joined(rest);
    }
}

/// The characters of `s`, in order.
pub fn chars_of(s: &str) -> (chars: Vec<char>)
    ensures
        chars@ == s@,
{
    let mut chars: Vec<char> = Vec::new();
    for c in it: s.chars()
        invariant
            it.seq() == s@,
            chars@ == s@.subrange(0, it.index() as int),
    {
        chars.push(c);
    }
    chars
}

/// The texts that the vectors of `ls` hold.
pub open spec fn line_views(ls: Seq<Vec<char>>) -> Seq<Seq<char>> {
    ls.map_values(|l: Vec<char>| l@)
}

/// Divides `s` into its lines.
pub fn lines_of(s: &str) -> (ls: Vec<Vec<char>>)
    ensures
        line_views(ls@) == lines(s@),
{
    let mut ls: Vec<Vec<char>> = Vec::new();
    let mut line: Vec<char> = Vec::new();
    let ghost mut start: int = 0;
    proof {
        assert(s@.subrange(0, s@.len() as int) == s@);
        assert(line_views(ls@) + lines(s@) == lines(s@));
    }
    for c in it: s.chars()
        invariant
            it.seq() == s@,
            0 <= start <= it.index() <= s@.len(),
            line@ == s@.subrange(start, it.index() as int),
            single_line(line@),
            lines(s@) == line_views(ls@) + lines(s@.subrange(start, s@.len() as int)),
    {
        let ghost i = it.index() as int;
        let ghost rest = s@.subrange(i + 1, s@.len() as int);
        if c == '\n' {
            proof {
                assert(s@.subrange(start, s@.len() as int) == line@.push('\n') + rest);
                lemma_lines_cons(line@, rest);
            }
            let n: usize = line.len();
            if n > 0 && line[n - 1] == '\r' {
                line.pop();
            }
            proof {
                assert(line_views(ls@.push(line)) == line_views(ls@).push(line@));
            }
            ls.push(line);
            line = Vec::new();
            proof {
                start = i + 1;
            }
        } else {
            line.push(c);
        }
    }
    proof {
        lemma_lines_last(line@);
    }
    if line.len() > 0 {
        proof {
            assert(line_views(ls@.push(line)) == line_views(ls@).push(line@));
        }
        ls.push(line);
    }
    ls
}

/// `String::push` of std: the string afterwards is the string before with
/// `ch` as one more character at its end.
pub assume_specification[ String::push ](s: &mut String, ch: char)
    ensures
        final(s)@ == old(s)@.push(ch),
;

/// Appends the characters of `chars` from position `from` on to `out`.
pub(crate) fn push_chars(out: &mut String, chars: &Vec<char>, from: usize)
    requires
        from <= chars.len(),
    ensures
        final(out)@ == old(out)@ + chars@.subrange(from as int, chars.len() as int),
{
    let mut i: usize = from;
    while i < chars.len()
        invariant
            from <= i <= chars.len(),
            out@ == old(out)@ + chars@.subrange(from as int, i as int),
        decreases chars.len() - i,
    {
        out.push(chars[i]);
        i += 1;
    }
}

} // verus!
