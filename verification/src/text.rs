//! Text as sequences of characters: substitution, line splitting, prefix and
//! substring tests. Every contract in the crate speaks of text through its
//! `Seq<char>` view, and the executable code works on `Vec<char>`.

use vstd::prelude::*;
use vstd::std_specs::iter::IteratorSpec;

verus! {

/// `s` with every occurrence of `from` replaced by `to`, scanning from the
/// left and never matching inside text that was already replaced. An empty
/// `from` matches before every character and at the end.
pub open spec fn replaced(s: Seq<char>, from: Seq<char>, to: Seq<char>) -> Seq<char>
    decreases s.len(),
{
    if from.len() == 0 {
        if s.len() == 0 {
            to
        } else {
            to + seq![s[0]] + replaced(s.skip(1), from, to)
        }
    } else if from.is_prefix_of(s) {
        to + replaced(s.skip(from.len() as int), from, to)
    } else if s.len() == 0 {
        s
    } else {
        seq![s[0]] + replaced(s.skip(1), from, to)
    }
}

/// Whether `pat` occurs in `s` starting at position `at`.
pub open spec fn occurs_at(s: Seq<char>, at: int, pat: Seq<char>) -> bool {
    0 <= at && at + pat.len() <= s.len() && s.subrange(at, at + pat.len()) == pat
}

/// Whether `pat` occurs somewhere in `s`.
pub open spec fn contains_text(s: Seq<char>, pat: Seq<char>) -> bool {
    exists|at: int| occurs_at(s, at, pat)
}

/// The number of characters before the first line feed of `s`, or the length
/// of `s` where it holds none.
pub open spec fn line_end(s: Seq<char>) -> int
    decreases s.len(),
{
    if s.len() == 0 || s[0] == '\n' {
        0
    } else {
        1 + line_end(s.skip(1))
    }
}

/// `line` without the carriage return that ends it, if one does.
pub open spec fn without_cr(line: Seq<char>) -> Seq<char> {
    if line.len() > 0 && line.last() == '\r' {
        line.drop_last()
    } else {
        line
    }
}

/// The lines of `s`. A line ends at a line feed, or at a carriage return
/// directly followed by a line feed; neither belongs to the line. Text after
/// the last line feed is one more line unless it is empty.
pub open spec fn lines_of(s: Seq<char>) -> Seq<Seq<char>>
    decreases s.len(),
    via lines_of_terminates
{
    if s.len() == 0 {
        Seq::empty()
    } else if line_end(s) == s.len() {
        seq![s]
    } else {
        seq![without_cr(s.take(line_end(s)))] + lines_of(s.skip(line_end(s) + 1))
    }
}

#[via_fn]
proof fn lines_of_terminates(s: Seq<char>) {
    line_end_bounds(s);
}

/// The decimal digit for `d`, which is below ten.
pub open spec fn digit(d: int) -> char {
    (48 + d) as char
}

/// `n` written in decimal, without leading zeros.
pub open spec fn decimal(n: u8) -> Seq<char> {
    if n < 10 {
        seq![digit(n as int)]
    } else if n < 100 {
        seq![digit(n as int / 10), digit(n as int % 10)]
    } else {
        seq![digit(n as int / 100), digit((n as int / 10) % 10), digit(n as int % 10)]
    }
}

/// Where the first line of `s` ends: within `s`, with no line feed before it
/// and a line feed at it unless it is the end of `s`.
pub proof fn line_end_bounds(s: Seq<char>)
    ensures
        0 <= line_end(s) <= s.len(),
        forall|k: int| 0 <= k < line_end(s) ==> s[k] != '\n',
        line_end(s) < s.len() ==> s[line_end(s)] == '\n',
    decreases s.len(),
{
    if s.len() == 0 || s[0] == '\n' {
    } else {
        let rest = s.skip(1);
        line_end_bounds(rest);
        assert forall|k: int| 0 <= k < line_end(s) implies s[k] != '\n' by {
            if k > 0 {
                assert(s[k] == rest[k - 1]);
            }
        }
        if line_end(s) < s.len() {
            assert(s[line_end(s)] == rest[line_end(rest)]);
        }
    }
}

/// A position with no line feed before it, holding a line feed or being the
/// end of `s`, is where the first line of `s` ends.
pub proof fn line_end_is(s: Seq<char>, e: int)
    requires
        0 <= e <= s.len(),
        forall|k: int| 0 <= k < e ==> s[k] != '\n',
        e < s.len() ==> s[e] == '\n',
    ensures
        line_end(s) == e,
{
    line_end_bounds(s);
}

/// Appends one character to a `String`: `String::push`, which adds the
/// character to the end of the string and changes nothing else.
#[verifier::external_body]
pub(crate) fn push_char(s: &mut String, c: char)
    ensures
        final(s)@ == old(s)@.push(c),
{
    s.push(c)
}

/// The characters of `s`, in order.
pub(crate) fn chars_of(s: &str) -> (v: Vec<char>)
    ensures
        v@ == s@,
{
    let mut v: Vec<char> = Vec::new();
    let it0 = s.chars();
    for c in it: it0
        invariant
            v@ == it.seq().take(it.index() as int),
            it.seq() == s@,
    {
        v.push(c);
    }
    v
}

/// The string made of the characters of `v`, in order.
pub(crate) fn string_of(v: &Vec<char>) -> (s: String)
    ensures
        s@ == v@,
{
    let mut s = String::new();
    let mut i: usize = 0;
    while i < v.len()
        invariant
            i <= v.len(),
            s@ == v@.take(i as int),
        decreases v.len() - i,
    {
        push_char(&mut s, v[i]);
        i += 1;
    }
    s
}

/// Appends the characters of `more` to `out`.
pub(crate) fn append(out: &mut Vec<char>, more: &Vec<char>)
    ensures
        final(out)@ == old(out)@ + more@,
{
    let mut i: usize = 0;
    while i < more.len()
        invariant
            i <= more.len(),
            out@ == old(out)@ + more@.take(i as int),
        decreases more.len() - i,
    {
        out.push(more[i]);
        i += 1;
    }
}

/// Appends the characters of `more` to `out`.
pub(crate) fn append_str(out: &mut Vec<char>, more: &str)
    ensures
        final(out)@ == old(out)@ + more@,
{
    let chars = chars_of(more);
    append(out, &chars);
}

/// Whether `a` and `b` hold the same characters.
pub(crate) fn same_chars(a: &Vec<char>, b: &Vec<char>) -> (same: bool)
    ensures
        same == (a@ == b@),
{
    if a.len() != b.len() {
        return false;
    }
    let mut i: usize = 0;
    while i < a.len()
        invariant
            i <= a.len(),
            a.len() == b.len(),
            a@.take(i as int) == b@.take(i as int),
        decreases a.len() - i,
    {
        if a[i] != b[i] {
            return false;
        }
        assert(a@.take(i + 1) == a@.take(i as int).push(a@[i as int]));
        assert(b@.take(i + 1) == b@.take(i as int).push(b@[i as int]));
        i += 1;
    }
    assert(a@ == a@.take(a.len() as int));
    assert(b@ == b@.take(b.len() as int));
    true
}

/// Whether `pat` stands in `s` at position `at`.
pub(crate) fn matches_at(s: &Vec<char>, at: usize, pat: &Vec<char>) -> (found: bool)
    requires
        at <= s.len(),
    ensures
        found == pat@.is_prefix_of(s@.skip(at as int)),
        found == occurs_at(s@, at as int, pat@),
{
    if pat.len() > s.len() - at {
        return false;
    }
    let ghost tail = s@.skip(at as int);
    let mut i: usize = 0;
    while i < pat.len()
        invariant
            i <= pat.len(),
            at + pat.len() <= s.len(),
            tail == s@.skip(at as int),
            pat@.take(i as int) == tail.take(i as int),
        decreases pat.len() - i,
    {
        if s[at + i] != pat[i] {
            proof {
                assert(tail[i as int] == s@[at + i]);
                assert(tail.subrange(0, pat.len() as int)[i as int] != pat@[i as int]);
                assert(s@.subrange(at as int, at + pat.len())[i as int] != pat@[i as int]);
            }
            return false;
        }
        proof {
            assert(tail[i as int] == s@[at + i]);
            assert(pat@.take(i + 1) == pat@.take(i as int).push(pat@[i as int]));
            assert(tail.take(i + 1) == tail.take(i as int).push(tail[i as int]));
        }
        i += 1;
    }
    proof {
        assert(pat@ == pat@.take(pat.len() as int));
        assert(tail.take(pat.len() as int) == tail.subrange(0, pat.len() as int));
        assert(s@.subrange(at as int, at + pat.len()) == tail.take(pat.len() as int));
    }
    true
}

/// Whether `s` begins with `pat`.
pub(crate) fn starts_with(s: &Vec<char>, pat: &Vec<char>) -> (found: bool)
    ensures
        found == pat@.is_prefix_of(s@),
{
    assert(s@.skip(0) == s@);
    matches_at(s, 0, pat)
}

/// Whether `pat` occurs somewhere in `s`.
pub(crate) fn contains(s: &Vec<char>, pat: &Vec<char>) -> (found: bool)
    ensures
        found == contains_text(s@, pat@),
{
    let mut at: usize = 0;
    while at <= s.len()
        invariant
            at <= s.len() + 1,
            forall|k: int| 0 <= k < at ==> !occurs_at(s@, k, pat@),
        decreases s.len() + 1 - at,
    {
        if matches_at(s, at, pat) {
            return true;
        }
        if at == s.len() {
            assert forall|k: int| !occurs_at(s@, k, pat@) by {
                if occurs_at(s@, k, pat@) {
                    assert(0 <= k <= s.len());
                }
            }
            return false;
        }
        at += 1;
    }
    assert forall|k: int| !occurs_at(s@, k, pat@) by {}
    false
}

/// `s` with every occurrence of `from` replaced by `to`.
pub(crate) fn replace_all(s: &Vec<char>, from: &Vec<char>, to: &Vec<char>) -> (out: Vec<char>)
    ensures
        out@ == replaced(s@, from@, to@),
{
    let mut out: Vec<char> = Vec::new();
    let mut i: usize = 0;
    let mut done = false;
    assert(s@.skip(0) == s@);
    while !done
        invariant
            i <= s.len(),
            done ==> out@ == replaced(s@, from@, to@),
            !done ==> replaced(s@, from@, to@) == out@ + replaced(s@.skip(i as int), from@, to@),
        decreases s.len() - i + (if done { 0int } else { 1int }),
    {
        let ghost rest = s@.skip(i as int);
        let ghost before = out@;
        let hit = matches_at(s, i, from);
        if hit {
            append(&mut out, to);
        }
        if hit && from.len() > 0 {
            proof {
                assert(rest.skip(from.len() as int) == s@.skip(i + from.len()));
                assert(before + (to@ + replaced(rest.skip(from.len() as int), from@, to@)) == (
                before + to@) + replaced(rest.skip(from.len() as int), from@, to@));
            }
            i += from.len();
        } else if i == s.len() {
            proof {
                assert(rest.len() == 0);
                if hit {
                    assert(before + to@ == out@);
                } else {
                    assert(before + rest == before);
                }
            }
            done = true;
        } else {
            proof {
                assert(rest[0] == s@[i as int]);
                assert(rest.skip(1) == s@.skip(i + 1));
                let tail = replaced(rest.skip(1), from@, to@);
                if hit {
                    assert(before + (to@ + seq![rest[0]] + tail) == (before + to@).push(rest[0])
                        + tail);
                } else {
                    assert(before + (seq![rest[0]] + tail) == before.push(rest[0]) + tail);
                }
            }
            out.push(s[i]);
            i += 1;
        }
    }
    out
}

/// The lines of `s`.
pub(crate) fn split_lines(s: &Vec<char>) -> (lines: Vec<Vec<char>>)
    ensures
        lines@.len() == lines_of(s@).len(),
        forall|k: int| 0 <= k < lines@.len() ==> (#[trigger] lines@[k])@ == lines_of(s@)[k],
{
    let mut lines: Vec<Vec<char>> = Vec::new();
    let ghost mut done_lines: Seq<Seq<char>> = Seq::empty();
    let mut i: usize = 0;
    assert(s@.skip(0) == s@);
    while i < s.len()
        invariant
            i <= s.len(),
            lines@.len() == done_lines.len(),
            forall|k: int| 0 <= k < lines@.len() ==> (#[trigger] lines@[k])@ == done_lines[k],
            lines_of(s@) == done_lines + lines_of(s@.skip(i as int)),
        decreases s.len() - i,
    {
        let ghost rest = s@.skip(i as int);
        let mut line: Vec<char> = Vec::new();
        let mut j: usize = i;
        while j < s.len() && s[j] != '\n'
            invariant
                i <= j <= s.len(),
                rest == s@.skip(i as int),
                line@ == rest.take(j - i),
                forall|k: int| 0 <= k < j - i ==> rest[k] != '\n',
            decreases s.len() - j,
        {
            assert(rest[j - i] == s@[j as int]);
            assert(rest.take(j - i + 1) == rest.take(j - i).push(rest[j - i]));
            line.push(s[j]);
            j += 1;
        }
        proof {
            if j < s.len() {
                assert(rest[j - i] == s@[j as int]);
            }
            line_end_is(rest, j - i);
        }
        if j == s.len() {
            proof {
                assert(rest.take(rest.len() as int) == rest);
                assert(lines_of(rest) == seq![rest]);
                assert(s@.skip(j as int).len() == 0);
                assert(done_lines + seq![rest] == done_lines.push(rest) + lines_of(
                    s@.skip(j as int),
                ));
                done_lines = done_lines.push(rest);
            }
            lines.push(line);
            i = j;
        } else {
            let n = line.len();
            if n > 0 && line[n - 1] == '\r' {
                line.pop();
            }
            proof {
                let first = without_cr(rest.take(j - i));
                assert(line@ == first);
                assert(rest.skip(j - i + 1) == s@.skip(j + 1));
                assert(done_lines + (seq![first] + lines_of(rest.skip(j - i + 1)))
                    == done_lines.push(first) + lines_of(s@.skip(j + 1)));
                done_lines = done_lines.push(first);
            }
            lines.push(line);
            i = j + 1;
        }
    }
    proof {
        assert(s@.skip(i as int).len() == 0);
        assert(done_lines + Seq::<Seq<char>>::empty() == done_lines);
    }
    lines
}

/// `n` written in decimal.
pub(crate) fn decimal_chars(n: u8) -> (out: Vec<char>)
    ensures
        out@ == decimal(n),
{
    let mut out: Vec<char> = Vec::new();
    if n >= 100 {
        out.push((48 + n / 100) as char);
    }
    if n >= 10 {
        out.push((48 + (n / 10) % 10) as char);
    }
    out.push((48 + n % 10) as char);
    assert(out@ == decimal(n));
    out
}

} // verus!
