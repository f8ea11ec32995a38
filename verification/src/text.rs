//! Text helpers shared by the rest of the crate: joining labels, trimming
//! white space, and the lexicographic order in which category paths are listed.
//!
//! Everything is stated over `Seq<char>`, the view of `String` and `str`.

use vstd::prelude::*;

verus! {

// ---------------------------------------------------------------------------
// Joining
// ---------------------------------------------------------------------------

/// The parts written one after another with `separator` between neighbours.
pub open spec fn joined(parts: Seq<Seq<char>>, separator: Seq<char>) -> Seq<char>
    decreases parts.len(),
{
    if parts.len() == 0 {
        Seq::empty()
    } else if parts.len() == 1 {
        parts[0]
    } else {
        joined(parts.drop_last(), separator) + separator + parts.last()
    }
}

/// Joins `parts` with `separator` between neighbours.
pub fn join(parts: &[String], separator: &str) -> (out: String)
    ensures
        out@ == joined(parts.deep_view(), separator@),
{
    let mut out = String::new();
    let mut i: usize = 0;
    while i < parts.len()
        invariant
            i <= parts.len(),
            out@ == joined(parts.deep_view().take(i as int), separator@),
        decreases parts.len() - i,
    {
        proof {
            let before = parts.deep_view().take(i as int);
            let after = parts.deep_view().take(i + 1);
            assert(after.drop_last() == before);
            assert(after.last() == parts[i as int]@);
            if i == 0 {
                assert(before.len() == 0);
                assert(Seq::<char>::empty() + parts[i as int]@ == parts[i as int]@);
            }
        }
        if i > 0 {
            out.append(separator);
        }
        out.append(parts[i].as_str());
        i = i + 1;
    }
    proof {
        assert(parts.deep_view().take(parts.len() as int) == parts.deep_view());
    }
    out
}

// ---------------------------------------------------------------------------
// Trimming
// ---------------------------------------------------------------------------

/// Whether a character carries the Unicode `White_Space` property.
pub uninterp spec fn white_space(c: char) -> bool;

/// Calls `char::is_whitespace`, which answers whether the character has the
/// Unicode `White_Space` property.  The property is not spelled out in this
/// crate; the contract only gives the answer a name.
#[verifier::external_body]
fn is_whitespace(c: char) -> (b: bool)
    ensures
        b == white_space(c),
{
    c.is_whitespace()
}

/// `s` without its leading white space.
pub open spec fn trim_start(s: Seq<char>) -> Seq<char>
    decreases s.len(),
{
    if s.len() > 0 && white_space(s.first()) {
        trim_start(s.drop_first())
    } else {
        s
    }
}

/// `s` without its trailing white space.
pub open spec fn trim_end(s: Seq<char>) -> Seq<char>
    decreases s.len(),
{
    if s.len() > 0 && white_space(s.last()) {
        trim_end(s.drop_last())
    } else {
        s
    }
}

/// `s` without leading and trailing white space.
pub open spec fn trimmed(s: Seq<char>) -> Seq<char> {
    trim_end(trim_start(s))
}

/// Dropping a run of `k` leading white-space characters that ends at a solid
/// character (or at the end of the text) is what `trim_start` does.
pub proof fn lemma_trim_start_skips(s: Seq<char>, k: int)
    requires
        0 <= k <= s.len(),
        forall|i: int| 0 <= i < k ==> white_space(#[trigger] s[i]),
        k < s.len() ==> !white_space(s[k]),
    ensures
        trim_start(s) == s.skip(k),
    decreases k,
{
    if k == 0 {
        assert(s.skip(0) == s);
    } else {
        let rest = s.drop_first();
        assert forall|i: int| 0 <= i < k - 1 implies white_space(#[trigger] rest[i]) by {
            assert(rest[i] == s[i + 1]);
        }
        lemma_trim_start_skips(rest, k - 1);
        assert(rest.skip(k - 1) == s.skip(k));
    }
}

/// Keeping the first `k` characters, where everything after them is white
/// space and the last one kept is solid, is what `trim_end` does.
pub proof fn lemma_trim_end_takes(s: Seq<char>, k: int)
    requires
        0 <= k <= s.len(),
        forall|i: int| k <= i < s.len() ==> white_space(#[trigger] s[i]),
        k > 0 ==> !white_space(s[k - 1]),
    ensures
        trim_end(s) == s.take(k),
    decreases s.len() - k,
{
    if k == s.len() {
        assert(s.take(k) == s);
    } else {
        let rest = s.drop_last();
        lemma_trim_end_takes(rest, k);
        assert(rest.take(k) == s.take(k));
    }
}

/// Returns `text` without leading and trailing white space.
pub fn trim(text: &str) -> (out: String)
    ensures
        out@ == trimmed(text@),
{
    let total = text.unicode_len();
    let mut start: usize = 0;
    let mut end: usize = 0;
    let mut solid_seen = false;
    let mut position: usize = 0;
    for c in it: text.chars()
        invariant
            it.seq() == text@,
            total == text@.len(),
            position == it.index(),
            !solid_seen ==> start == 0 && end == 0,
            solid_seen ==> start < end <= position,
            solid_seen ==> !white_space(text@[start as int]),
            solid_seen ==> !white_space(text@[end - 1]),
            forall|i: int|
                0 <= i < position && (!solid_seen || i < start || end <= i) ==> white_space(
                    #[trigger] text@[i],
                ),
    {
        if !is_whitespace(c) {
            if !solid_seen {
                start = position;
                solid_seen = true;
            }
            end = position + 1;
        }
        position = position + 1;
    }
    proof {
        let s = text@;
        if solid_seen {
            lemma_trim_start_skips(s, start as int);
            let tail = s.skip(start as int);
            assert forall|i: int| end - start <= i < tail.len() implies white_space(
                #[trigger] tail[i],
            ) by {
                assert(tail[i] == s[i + start]);
            }
            assert(tail[end - start - 1] == s[end - 1]);
            lemma_trim_end_takes(tail, end - start);
            assert(tail.take(end - start) == s.subrange(start as int, end as int));
        } else {
            lemma_trim_start_skips(s, s.len() as int);
            assert(s.skip(s.len() as int) == Seq::<char>::empty());
            assert(s.subrange(0, 0) == Seq::<char>::empty());
        }
    }
    String::from_str(text.substring_char(start, end))
}

} // verus!
