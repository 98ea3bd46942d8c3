//! Building blocks for assembling text one piece at a time.

use vstd::prelude::*;
use vstd::string::*;

verus! {

/// Taken on trust from the standard library's documentation of
/// `String::push`: the character is added at the end of the string, and
/// what the string held before stays in front of it.
pub assume_specification[ String::push ](s: &mut String, ch: char)
    ensures
        final(s)@ == old(s)@.push(ch),
;

/// The pieces of `parts` written one after another with `sep` between each
/// two neighbours: nothing before the first piece and nothing after the last.
pub open spec fn joined(parts: Seq<Seq<char>>, sep: Seq<char>) -> Seq<char>
    decreases parts.len(),
{
    if parts.len() == 0 {
        Seq::empty()
    } else if parts.len() == 1 {
        parts[0]
    } else {
        joined(parts.drop_last(), sep) + sep + parts.last()
    }
}

/// The views of the strings of `parts`, in order.
pub open spec fn texts(parts: Seq<String>) -> Seq<Seq<char>> {
    parts.map_values(|p: String| p@)
}

/// Joins `parts` with `sep` between neighbours.
pub fn join(parts: &Vec<String>, sep: &str) -> (out: String)
    ensures
        out@ == joined(texts(parts@), sep@),
{
    let mut out = String::new();
    let n = parts.len();
    let mut i: usize = 0;
    while i < n
        invariant
            n == parts.len(),
            i <= n,
            out@ == joined(texts(parts@.take(i as int)), sep@),
        decreases n - i,
    {
        assert(texts(parts@.take(i + 1)).drop_last() == texts(parts@.take(i as int)));
        if i > 0 {
            out.append(sep);
        }
        out.append(parts[i].as_str());
        i += 1;
    }
    assert(parts@.take(n as int) == parts@);
    out
}

/// Where piece `i` starts in the joined text: behind the pieces before it
/// and one separator for each of them.
pub open spec fn start_of(parts: Seq<Seq<char>>, sep: Seq<char>, i: int) -> int
    decreases i,
{
    if i <= 0 {
        0
    } else {
        start_of(parts, sep, i - 1) + parts[i - 1].len() + sep.len()
    }
}

/// Where a piece starts depends only on the pieces before it.
pub proof fn lemma_start_of_prefix(
    parts: Seq<Seq<char>>,
    others: Seq<Seq<char>>,
    sep: Seq<char>,
    i: int,
)
    requires
        0 <= i <= parts.len(),
        i <= others.len(),
        forall|j: int| 0 <= j < i ==> parts[j] == others[j],
    ensures
        start_of(parts, sep, i) == start_of(others, sep, i),
    decreases i,
{
    if i > 0 {
        lemma_start_of_prefix(parts, others, sep, i - 1);
    }
}

/// The joined text holds the pieces in their order, each whole, with
/// exactly one separator between two neighbours, nothing before the first
/// piece and nothing behind the last.
pub proof fn lemma_joined_layout(parts: Seq<Seq<char>>, sep: Seq<char>, i: int)
    requires
        0 <= i < parts.len(),
    ensures
        0 <= start_of(parts, sep, i),
        start_of(parts, sep, i) + parts[i].len() <= joined(parts, sep).len(),
        joined(parts, sep).subrange(
            start_of(parts, sep, i),
            start_of(parts, sep, i) + parts[i].len(),
        ) == parts[i],
        i + 1 < parts.len() ==> joined(parts, sep).subrange(
            start_of(parts, sep, i) + parts[i].len(),
            start_of(parts, sep, i + 1),
        ) == sep,
        i + 1 == parts.len() ==> joined(parts, sep).len() == start_of(parts, sep, i)
            + parts[i].len(),
    decreases parts.len(),
{
    if parts.len() > 1 {
        let front = parts.drop_last();
        let last = front.len() as int;
        lemma_joined_layout(front, sep, last - 1);
        lemma_start_of_prefix(parts, front, sep, last - 1);
        if i < last {
            lemma_joined_layout(front, sep, i);
            lemma_start_of_prefix(parts, front, sep, i);
            if i + 1 < last {
                lemma_joined_layout(front, sep, i + 1);
                lemma_start_of_prefix(parts, front, sep, i + 1);
            }
        }
    }
}

/// Joining two lists that each hold a piece is joining each and setting
/// one separator between the results.
pub proof fn lemma_joined_concat(front: Seq<Seq<char>>, back: Seq<Seq<char>>, sep: Seq<char>)
    requires
        front.len() > 0,
        back.len() > 0,
    ensures
        joined(front + back, sep) == joined(front, sep) + sep + joined(back, sep),
    decreases back.len(),
{
    if back.len() == 1 {
        assert((front + back).drop_last() == front);
    } else {
        lemma_joined_concat(front, back.drop_last(), sep);
        assert((front + back).drop_last() == front + back.drop_last());
    }
}

/// Where every character of every piece and of the separator is
/// `allowed`, so is every character of the joined text.
pub proof fn lemma_joined_chars(
    parts: Seq<Seq<char>>,
    sep: Seq<char>,
    allowed: spec_fn(char) -> bool,
)
    requires
        forall|i: int, k: int|
            0 <= i < parts.len() && 0 <= k < parts[i].len() ==> allowed(#[trigger] parts[i][k]),
        forall|k: int| 0 <= k < sep.len() ==> allowed(#[trigger] sep[k]),
    ensures
        forall|k: int|
            0 <= k < joined(parts, sep).len() ==> allowed(#[trigger] joined(parts, sep)[k]),
    decreases parts.len(),
{
    if parts.len() > 1 {
        let front = parts.drop_last();
        assert forall|i: int, k: int|
            0 <= i < front.len() && 0 <= k < front[i].len() implies allowed(
            #[trigger] front[i][k],
        ) by {
            assert(front[i] == parts[i]);
        }
        lemma_joined_chars(front, sep, allowed);
        let head = joined(front, sep);
        assert forall|k: int| 0 <= k < joined(parts, sep).len() implies allowed(
            #[trigger] joined(parts, sep)[k],
        ) by {
            if k < head.len() {
                assert(joined(parts, sep)[k] == head[k]);
            } else if k < head.len() + sep.len() {
                assert(joined(parts, sep)[k] == sep[k - head.len()]);
            } else {
                assert(joined(parts, sep)[k] == parts.last()[k - head.len() - sep.len()]);
            }
        }
    }
}

} // verus!
