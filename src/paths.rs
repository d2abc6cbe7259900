//! File names of source images and of their cached thumbnails.
//!
//! A path is the byte string the file system uses for it. Paths handed to this
//! module come from directory listings: `<directory>/<file name>`.
use vstd::prelude::*;

verus! {

/// The byte `/`, which separates path components.
pub const SLASH: u8 = 47;

/// The byte `.`, which starts an extension.
pub const DOT: u8 = 46;

/// The file name prefix that marks a generated thumbnail: the ASCII bytes of
/// `.thumbnail.`.
pub open spec fn thumbnail_prefix() -> Seq<u8> {
    seq![46u8, 116, 104, 117, 109, 98, 110, 97, 105, 108, 46]
}

/// The extension written after a thumbnail's stem: the ASCII bytes of `.webp`.
pub open spec fn thumbnail_extension() -> Seq<u8> {
    seq![46u8, 119, 101, 98, 112]
}

/// Where the last component of `p` starts: just past its last `/`, or 0.
pub open spec fn name_start(p: Seq<u8>) -> int
    decreases p.len(),
{
    if p.len() == 0 {
        0
    } else if p.last() == SLASH {
        p.len() as int
    } else {
        name_start(p.drop_last())
    }
}

/// The directory part of `p`, with its trailing `/`.
pub open spec fn dir_part(p: Seq<u8>) -> Seq<u8> {
    p.take(name_start(p))
}

/// The last component of `p`.
pub open spec fn file_name_of(p: Seq<u8>) -> Seq<u8> {
    p.skip(name_start(p))
}

/// Position of the last `.` in `s`, or -1.
pub open spec fn last_dot(s: Seq<u8>) -> int
    decreases s.len(),
{
    if s.len() == 0 {
        -1
    } else if s.last() == DOT {
        s.len() - 1
    } else {
        last_dot(s.drop_last())
    }
}

/// A file name without its extension. A name whose only `.` leads it (a
/// hidden file) has no extension.
pub open spec fn stem_of(name: Seq<u8>) -> Seq<u8> {
    if last_dot(name) > 0 {
        name.take(last_dot(name))
    } else {
        name
    }
}

/// A path whose last component names a file: not empty, `.` or `..`.
pub open spec fn is_file_path(p: Seq<u8>) -> bool {
    let n = file_name_of(p);
    &&& n.len() > 0
    &&& n != seq![DOT]
    &&& n != seq![DOT, DOT]
}

/// Whether a file name marks a generated thumbnail.
pub open spec fn is_thumbnail_name_spec(name: Seq<u8>) -> bool {
    name.len() >= thumbnail_prefix().len() && name.take(thumbnail_prefix().len() as int)
        == thumbnail_prefix()
}

/// The thumbnail of `<dir>/<name>` is `<dir>/.thumbnail.<stem of name>.webp`.
pub open spec fn thumbnail_path_of(p: Seq<u8>) -> Seq<u8> {
    dir_part(p) + thumbnail_prefix() + stem_of(file_name_of(p)) + thumbnail_extension()
}

proof fn lemma_name_start_bounds(p: Seq<u8>)
    ensures
        0 <= name_start(p) <= p.len(),
        forall|i: int| name_start(p) <= i < p.len() ==> p[i] != SLASH,
    decreases p.len(),
{
    if p.len() > 0 && p.last() != SLASH {
        lemma_name_start_bounds(p.drop_last());
        assert forall|i: int| name_start(p) <= i < p.len() implies p[i] != SLASH by {
            if i < p.len() - 1 {
                assert(p.drop_last()[i] == p[i]);
            }
        }
    }
}

proof fn lemma_last_dot_bounds(s: Seq<u8>)
    ensures
        -1 <= last_dot(s) < s.len(),
        last_dot(s) >= 0 ==> s[last_dot(s)] == DOT,
        forall|i: int| last_dot(s) < i < s.len() ==> s[i] != DOT,
    decreases s.len(),
{
    if s.len() > 0 && s.last() != DOT {
        lemma_last_dot_bounds(s.drop_last());
        assert forall|i: int| last_dot(s) < i < s.len() implies s[i] != DOT by {
            if i < s.len() - 1 {
                assert(s.drop_last()[i] == s[i]);
            }
        }
    }
}

/// Where the last component of `p` starts.
fn find_name_start(p: &Vec<u8>) -> (r: usize)
    ensures
        r == name_start(p@),
{
    let mut i: usize = p.len();
    assert(p@.take(i as int) =~= p@);
    while i > 0 && p[i - 1] != SLASH
        invariant
            i <= p.len(),
            name_start(p@) == name_start(p@.take(i as int)),
        decreases i,
    {
        assert(p@.take(i as int).drop_last() =~= p@.take(i - 1));
        i = i - 1;
    }
    assert(p@.take(p@.len() as int) =~= p@);
    if i > 0 {
        assert(p@.take(i as int).last() == SLASH);
    } else {
        assert(p@.take(0) =~= Seq::<u8>::empty());
    }
    i
}

/// Position of the last `.` in `s[from..]`, counted from `from`, or `None`.
fn find_last_dot(p: &Vec<u8>, from: usize) -> (r: Option<usize>)
    requires
        from <= p.len(),
    ensures
        match r {
            Some(d) => d as int == last_dot(p@.skip(from as int)),
            None => last_dot(p@.skip(from as int)) == -1,
        },
{
    let ghost s = p@.skip(from as int);
    let mut i: usize = p.len();
    assert(s.take(i - from) =~= s);
    while i > from && p[i - 1] != DOT
        invariant
            from <= i <= p.len(),
            s == p@.skip(from as int),
            last_dot(s) == last_dot(s.take(i - from)),
        decreases i,
    {
        assert(s.take(i - from).drop_last() =~= s.take(i - 1 - from));
        i = i - 1;
    }
    assert(s.take(s.len() as int) =~= s);
    if i > from {
        assert(s.take(i - from).last() == DOT);
        Some(i - 1 - from)
    } else {
        assert(s.take(0) =~= Seq::<u8>::empty());
        None
    }
}

/// Appends `src[from..to]` to `out`.
fn push_range(out: &mut Vec<u8>, src: &Vec<u8>, from: usize, to: usize)
    requires
        from <= to <= src.len(),
    ensures
        final(out)@ == old(out)@ + src@.subrange(from as int, to as int),
{
    let mut i: usize = from;
    while i < to
        invariant
            from <= i <= to <= src.len(),
            out@ == old(out)@ + src@.subrange(from as int, i as int),
        decreases to - i,
    {
        out.push(src[i]);
        assert(src@.subrange(from as int, i + 1) =~= src@.subrange(from as int, i as int).push(
            src@[i as int],
        ));
        i = i + 1;
    }
}

/// Whether `s[from..]` starts with `.thumbnail.`.
fn thumbnail_prefix_at(s: &[u8], from: usize) -> (r: bool)
    requires
        from <= s@.len(),
    ensures
        r == is_thumbnail_name_spec(s@.skip(from as int)),
{
    let ghost name = s@.skip(from as int);
    let prefix: Vec<u8> = vec![46u8, 116, 104, 117, 109, 98, 110, 97, 105, 108, 46];
    assert(prefix@ =~= thumbnail_prefix());
    if s.len() - from < prefix.len() {
        return false;
    }
    let mut i: usize = 0;
    while i < prefix.len()
        invariant
            name == s@.skip(from as int),
            from <= s@.len(),
            name.len() == s@.len() - from,
            from + prefix.len() <= s.len(),
            prefix@ == thumbnail_prefix(),
            prefix.len() <= name.len(),
            i <= prefix.len(),
            forall|j: int| 0 <= j < i ==> name[j] == prefix@[j],
        decreases prefix.len() - i,
    {
        assert(name[i as int] == s@[from + i]);
        if s[from + i] != prefix[i] {
            assert(name.take(prefix.len() as int)[i as int] != thumbnail_prefix()[i as int]);
            return false;
        }
        i = i + 1;
    }
    assert(name.take(prefix.len() as int) =~= thumbnail_prefix());
    true
}

/// Whether a file name marks a generated thumbnail, that is starts with
/// `.thumbnail.`.
pub fn is_thumbnail_name(name: &[u8]) -> (r: bool)
    ensures
        r == is_thumbnail_name_spec(name@),
{
    assert(name@.skip(0) =~= name@);
    thumbnail_prefix_at(name, 0)
}

/// Whether the last component of `p` marks a generated thumbnail.
pub fn has_thumbnail_name(p: &Vec<u8>) -> (r: bool)
    ensures
        r == is_thumbnail_name_spec(file_name_of(p@)),
{
    proof {
        lemma_name_start_bounds(p@);
    }
    let start = find_name_start(p);
    thumbnail_prefix_at(p.as_slice(), start)
}

/// Whether the last component of `p` names a file: it is not empty, `.` or
/// `..`.
pub fn names_file(p: &Vec<u8>) -> (r: bool)
    ensures
        r == is_file_path(p@),
{
    proof {
        lemma_name_start_bounds(p@);
    }
    let start = find_name_start(p);
    let ghost n = file_name_of(p@);
    assert(n.len() == p.len() - start);
    let len = p.len() - start;
    if len == 0 {
        return false;
    }
    assert(n[0] == p@[start as int]);
    if len == 1 && p[start] == DOT {
        assert(n =~= seq![DOT]);
        return false;
    }
    if len == 2 && p[start] == DOT && p[start + 1] == DOT {
        assert(n =~= seq![DOT, DOT]);
        return false;
    }
    assert(len == 1 ==> n != seq![DOT, DOT]);
    assert(len == 2 ==> n[1] == p@[start + 1]);
    assert(n.len() != 1 ==> n != seq![DOT]);
    assert(n.len() != 2 ==> n != seq![DOT, DOT]);
    assert(n != seq![DOT]) by {
        if n.len() == 1 {
            assert(n[0] != DOT);
            assert(seq![DOT][0] == DOT);
        }
    }
    assert(n != seq![DOT, DOT]) by {
        if n.len() == 2 {
            assert(n[0] != DOT || n[1] != DOT);
            assert(seq![DOT, DOT][0] == DOT && seq![DOT, DOT][1] == DOT);
        }
    }
    true
}

/// The path of the thumbnail cached for the image at `p`: a sibling file named
/// `.thumbnail.<stem>.webp`.
pub fn thumbnail_path(p: &Vec<u8>) -> (r: Vec<u8>)
    requires
        is_file_path(p@),
    ensures
        r@ == thumbnail_path_of(p@),
{
    proof {
        lemma_name_start_bounds(p@);
    }
    let start = find_name_start(p);
    let dot = find_last_dot(p, start);
    let ghost name = file_name_of(p@);
    proof {
        lemma_last_dot_bounds(name);
        assert(name == p@.skip(start as int));
        assert(name.len() == p.len() - start);
    }
    let stem_end: usize = match dot {
        Some(d) if d > 0 => start + d,
        _ => p.len(),
    };
    let mut r: Vec<u8> = Vec::new();
    push_range(&mut r, p, 0, start);
    let prefix: Vec<u8> = vec![46u8, 116, 104, 117, 109, 98, 110, 97, 105, 108, 46];
    push_range(&mut r, &prefix, 0, prefix.len());
    push_range(&mut r, p, start, stem_end);
    let extension: Vec<u8> = vec![46u8, 119, 101, 98, 112];
    push_range(&mut r, &extension, 0, extension.len());
    assert(p@.subrange(0, start as int) =~= dir_part(p@));
    assert(prefix@.subrange(0, prefix.len() as int) =~= thumbnail_prefix());
    assert(p@.subrange(start as int, stem_end as int) =~= stem_of(name));
    assert(extension@.subrange(0, extension.len() as int) =~= thumbnail_extension());
    r
}

} // verus!
