//! Text helpers: trimming of white space, joining with a separator, and
//! comparison of two texts, each stated over sequences of characters.

use vstd::prelude::*;
use vstd::std_specs::iter::IteratorSpec;

verus! {

/// Whether `c` is white space, as `char::is_whitespace` reports it.
pub uninterp spec fn whitespace(c: char) -> bool;

/// `char::is_whitespace` is taken to depend on the character alone: what
/// it answers for `c` is what [`whitespace`] names. Which characters it
/// accepts is left open.
pub assume_specification[ char::is_whitespace ](c: char) -> (b: bool)
    ensures
        b == whitespace(c),
;

/// `s` without its leading white space.
pub open spec fn trim_start(s: Seq<char>) -> Seq<char>
    decreases s.len(),
{
    if s.len() > 0 && whitespace(s.first()) {
        trim_start(s.drop_first())
    } else {
        s
    }
}

/// `s` without its trailing white space.
pub open spec fn trim_end(s: Seq<char>) -> Seq<char>
    decreases s.len(),
{
    if s.len() > 0 && whitespace(s.last()) {
        trim_end(s.drop_last())
    } else {
        s
    }
}

/// `s` without its leading and trailing white space.
pub open spec fn trimmed(s: Seq<char>) -> Seq<char> {
    trim_end(trim_start(s))
}

/// Every character of `s` at an index in `[from, to)` is white space.
pub open spec fn all_whitespace(s: Seq<char>, from: int, to: int) -> bool {
    forall|k: int| from <= k < to ==> whitespace(#[trigger] s[k])
}

/// The texts that `parts` hold, in order.
pub open spec fn texts(parts: Seq<String>) -> Seq<Seq<char>> {
    parts.map_values(|p: String| p@)
}

/// The `parts` in order, with `sep` between each two neighbours.
pub open spec fn joined(parts: Seq<Seq<char>>, sep: Seq<char>) -> Seq<char>
    decreases parts.len(),
{
    if parts.len() == 0 {
        Seq::empty()
    } else if parts.len() == 1 {
        parts[0]
    } else {
        joined(parts.drop_last(), sep) + sep + parts.last()
    }
}

/// Returns `s` without its leading and trailing white space.
///
/// Reads `s` three times from the start: to count its characters, to
/// find the first and the last that is not white space, and to cut.
pub fn trim(s: &str) -> (t: &str)
    ensures
        t@ == trimmed(s@),
{
    let total = s.unicode_len();
    let mut seen: usize = 0;
    // `start..end` runs from the first character that is not white space
    // to the last such character met so far; empty until one is met.
    let mut start: usize = 0;
    let mut end: usize = 0;
    for c in it: s.chars()
        invariant
            it.seq() == s@,
            seen == it.index(),
            total == s@.len(),
            start <= end <= seen,
            start == end ==> start == 0 && all_whitespace(s@, 0, seen as int),
            start < end ==> {
                &&& all_whitespace(s@, 0, start as int)
                &&& !whitespace(s@[start as int])
                &&& !whitespace(s@[end - 1])
                &&& all_whitespace(s@, end as int, seen as int)
            },
    {
        if !c.is_whitespace() {
            if start == end {
                start = seen;
            }
            end = seen + 1;
        }
        seen += 1;
    }
    proof {
        if start < end {
            lemma_trim_start_cuts(s@, start as int);
            let tail = s@.subrange(start as int, total as int);
            assert forall|k: int| end - start <= k < tail.len() implies whitespace(
                #[trigger] tail[k],
            ) by {
                assert(tail[k] == s@[start + k]);
            }
            lemma_trim_end_cuts(tail, end - start);
            assert(tail.subrange(0, end - start) =~= s@.subrange(start as int, end as int));
        } else {
            lemma_trim_start_cuts(s@, total as int);
            assert(s@.subrange(total as int, total as int) =~= Seq::<char>::empty());
        }
    }
    s.substring_char(start, end)
}

/// Concatenates `parts`, putting `sep` between each two neighbours.
pub fn join(parts: &Vec<String>, sep: &str) -> (line: String)
    ensures
        line@ == joined(texts(parts@), sep@),
{
    let mut line = String::new();
    for i in 0..parts.len()
        invariant
            line@ == joined(texts(parts@).take(i as int), sep@),
    {
        if i > 0 {
            line.append(sep);
        }
        line.append(parts[i].as_str());
        proof {
            let done = texts(parts@).take(i + 1);
            assert(done.drop_last() =~= texts(parts@).take(i as int));
            assert(done.last() == parts@[i as int]@);
        }
    }
    proof {
        assert(texts(parts@).take(parts.len() as int) =~= texts(parts@));
    }
    line
}

/// Whether `a` and `b` hold the same characters in the same order.
pub fn same_text(a: &str, b: &str) -> (same: bool)
    ensures
        same == (a@ == b@),
{
    let mut rest = b.chars();
    for c in it: a.chars()
        invariant
            it.seq() == a@,
            it.index() <= b@.len(),
            a@.take(it.index()) == b@.take(it.index()),
            rest.remaining() == b@.skip(it.index()),
    {
        match rest.next() {
            Some(d) => {
                if c != d {
                    return false;
                }
            },
            None => {
                return false;
            },
        }
    }
    let beyond = rest.next();
    proof {
        let n = a@.len() as int;
        assert(a@.take(n) =~= a@);
        assert(b@.skip(n).len() == b@.len() - n);
        if beyond is None {
            assert(b@.take(n) =~= b@);
        }
    }
    beyond.is_none()
}

/// If all of `s` before `start` is white space and the character at
/// `start`, if there is one, is not, then trimming at the start cuts `s`
/// at `start`.
pub proof fn lemma_trim_start_cuts(s: Seq<char>, start: int)
    requires
        0 <= start <= s.len(),
        all_whitespace(s, 0, start),
        start < s.len() ==> !whitespace(s[start]),
    ensures
        trim_start(s) == s.subrange(start, s.len() as int),
    decreases start,
{
    if start == 0 {
        assert(s.subrange(0, s.len() as int) =~= s);
    } else {
        let rest = s.drop_first();
        assert forall|k: int| 0 <= k < start - 1 implies whitespace(#[trigger] rest[k]) by {
            assert(rest[k] == s[k + 1]);
        }
        lemma_trim_start_cuts(rest, start - 1);
        assert(rest.subrange(start - 1, rest.len() as int) =~= s.subrange(start, s.len() as int));
    }
}

/// If all of `s` from `end` on is white space and the character before
/// `end`, if there is one, is not, then trimming at the end cuts `s` at
/// `end`.
pub proof fn lemma_trim_end_cuts(s: Seq<char>, end: int)
    requires
        0 <= end <= s.len(),
        all_whitespace(s, end, s.len() as int),
        end > 0 ==> !whitespace(s[end - 1]),
    ensures
        trim_end(s) == s.subrange(0, end),
    decreases s.len() - end,
{
    if end == s.len() {
        assert(s.subrange(0, end) =~= s);
    } else {
        let rest = s.drop_last();
        lemma_trim_end_cuts(rest, end);
        assert(rest.subrange(0, end) =~= s.subrange(0, end));
    }
}

/// Finds where trimming at the start cuts `s`.
proof fn lemma_trim_start_bound(s: Seq<char>) -> (start: int)
    ensures
        0 <= start <= s.len(),
        all_whitespace(s, 0, start),
        start < s.len() ==> !whitespace(s[start]),
        trim_start(s) == s.subrange(start, s.len() as int),
    decreases s.len(),
{
    let start = if s.len() > 0 && whitespace(s.first()) {
        let rest = s.drop_first();
        let inner = lemma_trim_start_bound(rest);
        assert forall|k: int| 0 <= k < inner + 1 implies whitespace(#[trigger] s[k]) by {
            if k > 0 {
                assert(s[k] == rest[k - 1]);
            }
        }
        if inner < rest.len() {
            assert(s[inner + 1] == rest[inner]);
        }
        inner + 1
    } else {
        0
    };
    lemma_trim_start_cuts(s, start);
    start
}

/// Finds where trimming at the end cuts `s`.
proof fn lemma_trim_end_bound(s: Seq<char>) -> (end: int)
    ensures
        0 <= end <= s.len(),
        all_whitespace(s, end, s.len() as int),
        end > 0 ==> !whitespace(s[end - 1]),
        trim_end(s) == s.subrange(0, end),
    decreases s.len(),
{
    let end = if s.len() > 0 && whitespace(s.last()) {
        let rest = s.drop_last();
        let inner = lemma_trim_end_bound(rest);
        assert forall|k: int| inner <= k < s.len() implies whitespace(#[trigger] s[k]) by {
            if k < rest.len() {
                assert(s[k] == rest[k]);
            }
        }
        if inner > 0 {
            assert(s[inner - 1] == rest[inner - 1]);
        }
        inner
    } else {
        s.len() as int
    };
    lemma_trim_end_cuts(s, end);
    end
}

/// What trimming keeps is one stretch of `s`: all before it and all after
/// it is white space, and unless it is empty it neither begins nor ends
/// with white space. The result gives the bounds of the stretch.
pub proof fn lemma_trimmed_is_inner_part(s: Seq<char>) -> (bounds: (int, int))
    ensures
        0 <= bounds.0 <= bounds.1 <= s.len(),
        trimmed(s) == s.subrange(bounds.0, bounds.1),
        all_whitespace(s, 0, bounds.0),
        all_whitespace(s, bounds.1, s.len() as int),
        bounds.0 < bounds.1 ==> !whitespace(s[bounds.0]) && !whitespace(s[bounds.1 - 1]),
{
    let start = lemma_trim_start_bound(s);
    let tail = s.subrange(start, s.len() as int);
    let kept = lemma_trim_end_bound(tail);
    assert(tail.subrange(0, kept) =~= s.subrange(start, start + kept));
    assert forall|k: int| start + kept <= k < s.len() implies whitespace(#[trigger] s[k]) by {
        assert(s[k] == tail[k - start]);
    }
    if kept > 0 {
        assert(tail[kept - 1] == s[start + kept - 1]);
    }
    (start, start + kept)
}

/// Trimming what is already trimmed changes nothing.
pub proof fn lemma_trimmed_twice(s: Seq<char>)
    ensures
        trimmed(trimmed(s)) == trimmed(s),
{
    let bounds = lemma_trimmed_is_inner_part(s);
    let once = trimmed(s);
    if once.len() > 0 {
        assert(once.first() == s[bounds.0]);
        assert(once.last() == s[bounds.1 - 1]);
    }
}

} // verus!
