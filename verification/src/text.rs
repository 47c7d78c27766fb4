//! Small tools on text that the other modules share.

use vstd::prelude::*;

verus! {

/// The views of the strings of `v`, in order.
pub open spec fn texts(v: Seq<String>) -> Seq<Seq<char>> {
    Seq::new(v.len(), |i: int| v[i]@)
}

/// The view of a string that may be missing.
pub open spec fn optional_text(text: Option<String>) -> Option<Seq<char>> {
    match text {
        Some(text) => Some(text@),
        None => None,
    }
}

/// The parts written one after the other with the separator between
/// neighbours.
pub open spec fn joined(parts: Seq<Seq<char>>, separator: Seq<char>) -> Seq<char>
    decreases parts.len(),
{
    if parts.len() == 0 {
        Seq::<char>::empty()
    } else if parts.len() == 1 {
        parts[0]
    } else {
        joined(parts.drop_last(), separator) + separator + parts.last()
    }
}

/// Reads the characters of a text into a vector.
pub(crate) fn collect_chars(s: &str) -> (chars: Vec<char>)
    ensures
        chars@ == s@,
{
    let mut chars: Vec<char> = Vec::new();
    let iter = s.chars();
    proof {
        vstd::string::axiom_spec_iter(s);
    }
    for c in it: iter
        invariant
            it.seq() == s@,
            chars@ == s@.take(it.index()),
    {
        chars.push(c);
    }
    chars
}

/// Appends the parts from `from` up to `to`, with the separator between
/// neighbours.
pub(crate) fn append_joined(
    out: &mut String,
    parts: &Vec<String>,
    from: usize,
    to: usize,
    separator: &str,
)
    requires
        from <= to <= parts.len(),
    ensures
        final(out)@ == old(out)@ + joined(texts(parts@).subrange(from as int, to as int), separator@),
{
    let ghost all = texts(parts@);
    let mut i: usize = from;
    assert(all.subrange(from as int, from as int).len() == 0);
    assert(out@ + Seq::<char>::empty() == out@);
    while i < to
        invariant
            from <= i <= to <= parts.len(),
            all == texts(parts@),
            out@ == old(out)@ + joined(all.subrange(from as int, i as int), separator@),
        decreases to - i,
    {
        proof {
            let next = all.subrange(from as int, i + 1);
            assert(next.drop_last() == all.subrange(from as int, i as int));
            assert(next.last() == parts[i as int]@);
            if i == from {
                assert(joined(next, separator@) == parts[i as int]@);
                assert(old(out)@ + Seq::<char>::empty() + parts[i as int]@ == old(out)@
                    + parts[i as int]@);
            } else {
                let before = joined(all.subrange(from as int, i as int), separator@);
                assert(joined(next, separator@) == before + separator@ + parts[i as int]@);
                assert(old(out)@ + before + separator@ + parts[i as int]@ == old(out)@ + (before
                    + separator@ + parts[i as int]@));
            }
        }
        if i > from {
            out.append(separator);
        }
        out.append(parts[i].as_str());
        i += 1;
    }
}

} // verus!
