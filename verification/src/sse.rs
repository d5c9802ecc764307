//! Server-sent-event frame reassembly.
//!
//! A streamed completion arrives as byte chunks; logical frames are
//! separated by a blank line (`\n\n`) and a chunk may hold zero, one or
//! several frames, or end in the middle of one.  The splitter keeps the text
//! after the last separator as a remainder, so the frames handed on are the
//! same however the stream was cut into chunks.

use vstd::prelude::*;

verus! {

/// Whether a frame separator (`\n\n`) starts at position `i` of `s`.
pub open spec fn sep_at(s: Seq<char>, i: int) -> bool {
    0 <= i && i + 2 <= s.len() && s[i] == '\n' && s[i + 1] == '\n'
}

/// The position of the first frame separator at or after `i`, or -1.
pub open spec fn find_sep_from(s: Seq<char>, i: int) -> int
    decreases s.len() - i,
{
    if i < 0 || i + 2 > s.len() {
        -1
    } else if s[i] == '\n' && s[i + 1] == '\n' {
        i
    } else {
        find_sep_from(s, i + 1)
    }
}

/// The position of the first frame separator, or -1.
pub open spec fn find_sep(s: Seq<char>) -> int {
    find_sep_from(s, 0)
}

/// The complete frames of a buffer: the pieces before each separator.
pub open spec fn extract_frames(s: Seq<char>) -> Seq<Seq<char>>
    decreases s.len(),
{
    let i = find_sep(s);
    if i < 0 || i + 2 > s.len() {
        Seq::<Seq<char>>::empty()
    } else {
        seq![s.subrange(0, i)] + extract_frames(s.subrange(i + 2, s.len() as int))
    }
}

/// The remainder of a buffer: the text after the last separator.
pub open spec fn extract_rem(s: Seq<char>) -> Seq<char>
    decreases s.len(),
{
    let i = find_sep(s);
    if i < 0 || i + 2 > s.len() {
        s
    } else {
        extract_rem(s.subrange(i + 2, s.len() as int))
    }
}

proof fn lemma_find_sep_from_props(s: Seq<char>, i: int)
    requires
        0 <= i <= s.len(),
    ensures
        find_sep_from(s, i) >= 0 ==> i <= find_sep_from(s, i) && sep_at(s, find_sep_from(s, i))
            && (forall|k: int| i <= k < find_sep_from(s, i) ==> !sep_at(s, k)),
        find_sep_from(s, i) < 0 ==> forall|k: int| i <= k ==> !sep_at(s, k),
    decreases s.len() - i,
{
    if i + 2 > s.len() {
    } else if s[i] == '\n' && s[i + 1] == '\n' {
    } else {
        lemma_find_sep_from_props(s, i + 1);
    }
}

proof fn lemma_find_sep_concat(x: Seq<char>, y: Seq<char>, i: int)
    requires
        0 <= i <= x.len(),
        find_sep_from(x, i) >= 0,
    ensures
        find_sep_from(x + y, i) == find_sep_from(x, i),
    decreases x.len() - i,
{
    if i + 2 > x.len() {
        // impossible: find_sep_from(x, i) >= 0 requires room for a separator
        assert(find_sep_from(x, i) == -1);
    } else if x[i] == '\n' && x[i + 1] == '\n' {
        assert((x + y)[i] == '\n' && (x + y)[i + 1] == '\n');
    } else {
        assert((x + y)[i] == x[i] && (x + y)[i + 1] == x[i + 1]);
        lemma_find_sep_concat(x, y, i + 1);
    }
}

/// Splitting is insensitive to chunk boundaries: processing `x`, carrying
/// its remainder into `y`, yields the same frames and final remainder as
/// processing `x + y` at once.
pub proof fn lemma_extract_append(x: Seq<char>, y: Seq<char>)
    ensures
        extract_frames(x + y) == extract_frames(x) + extract_frames(extract_rem(x) + y),
        extract_rem(x + y) == extract_rem(extract_rem(x) + y),
    decreases x.len(),
{
    let i = find_sep(x);
    if i >= 0 {
        lemma_find_sep_from_props(x, 0);
        assert(i + 2 <= x.len());
        lemma_find_sep_concat(x, y, 0);
        assert(find_sep(x + y) == i);
        let xr = x.subrange(i + 2, x.len() as int);
        assert((x + y).subrange(0, i) =~= x.subrange(0, i));
        assert((x + y).subrange(i + 2, (x + y).len() as int) =~= xr + y);
        lemma_extract_append(xr, y);
        assert(extract_frames(x + y) == seq![x.subrange(0, i)] + extract_frames(xr + y));
        assert(extract_frames(x) + extract_frames(extract_rem(x) + y) =~= seq![
            x.subrange(0, i),
        ] + (extract_frames(xr) + extract_frames(extract_rem(xr) + y)));
        assert(extract_frames(xr + y) == extract_frames(xr) + extract_frames(extract_rem(xr) + y));
    } else {
        assert(extract_rem(x) == x);
        assert(extract_frames(x) == Seq::<Seq<char>>::empty());
        assert(extract_rem(x) + y =~= x + y);
        assert(extract_frames(x) + extract_frames(x + y) =~= extract_frames(x + y));
    }
}

/// Finds the first separator in `v` at or after position `from`.
pub fn find_separator(v: &Vec<char>, from: usize) -> (r: Option<usize>)
    requires
        from <= v@.len(),
    ensures
        match r {
            Some(i) => from <= i && i + 2 <= v@.len() && i == find_sep_from(v@, from as int),
            None => find_sep_from(v@, from as int) < 0,
        },
{
    let mut i: usize = from;
    while i < v.len() && i + 1 < v.len()
        invariant
            from <= i,
            i <= v@.len(),
            find_sep_from(v@, from as int) == find_sep_from(v@, i as int),
        decreases v@.len() - i,
    {
        if v[i] == '\n' && v[i + 1] == '\n' {
            return Some(i);
        }
        i = i + 1;
    }
    None
}

} // verus!
