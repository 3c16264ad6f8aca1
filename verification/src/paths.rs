//! Local paths, held as the bytes of a Unix path. Only the few path
//! operations that deciding what to upload needs: the final component of a
//! path, the part of a walked entry's path below the directory that was
//! walked, and decoding such bytes as UTF-8 text.

use vstd::prelude::*;
use vstd::utf8::{decode_utf8, valid_utf8};

verus! {

/// The separator byte `/`.
pub open spec fn is_slash(b: u8) -> bool {
    b == 0x2f
}

/// The index of the last `/` in `p`, or `-1` when there is none.
pub open spec fn last_slash(p: Seq<u8>) -> int
    decreases p.len(),
{
    if p.len() == 0 {
        -1
    } else if is_slash(p.last()) {
        p.len() - 1
    } else {
        last_slash(p.drop_last())
    }
}

pub proof fn lemma_last_slash(p: Seq<u8>)
    ensures
        -1 <= last_slash(p) < p.len(),
        last_slash(p) >= 0 ==> is_slash(p[last_slash(p)]),
        forall|i: int| last_slash(p) < i < p.len() ==> !is_slash(#[trigger] p[i]),
    decreases p.len(),
{
    if p.len() > 0 && !is_slash(p.last()) {
        lemma_last_slash(p.drop_last());
        assert forall|i: int| last_slash(p) < i < p.len() implies !is_slash(#[trigger] p[i]) by {
            if i < p.len() - 1 {
                assert(p.drop_last()[i] == p[i]);
            }
        }
    }
}

/// The one-byte segment `.`.
pub open spec fn dot() -> Seq<u8> {
    seq![0x2eu8]
}

/// The two-byte segment `..`.
pub open spec fn dot_dot() -> Seq<u8> {
    seq![0x2eu8, 0x2eu8]
}

/// The final component of the path `p`, as `std::path::Path::file_name`
/// documents it for Unix paths: the last segment between separators, where
/// empty segments (repeated or trailing `/`) and `.` segments do not count,
/// and nothing when that last segment is `..` or there is none.
pub open spec fn file_name_of(p: Seq<u8>) -> Option<Seq<u8>>
    decreases p.len(),
{
    let k = last_slash(p);
    let tail = p.subrange(k + 1, p.len() as int);
    if tail.len() == 0 || tail == dot() {
        if k < 0 || k >= p.len() {
            None
        } else {
            file_name_of(p.take(k))
        }
    } else if tail == dot_dot() {
        None
    } else {
        Some(tail)
    }
}

/// The index of the last `/` among the first `end` bytes of `p`.
fn find_last_slash(p: &[u8], end: usize) -> (k: Option<usize>)
    requires
        end <= p@.len(),
    ensures
        match k {
            Some(k) => k as int == last_slash(p@.take(end as int)),
            None => last_slash(p@.take(end as int)) == -1,
        },
{
    let mut i: usize = end;
    while i > 0 && p[i - 1] != 0x2f
        invariant
            i <= end <= p@.len(),
            last_slash(p@.take(end as int)) == last_slash(p@.take(i as int)),
        decreases i,
    {
        assert(p@.take(i as int).drop_last() =~= p@.take(i - 1));
        i = i - 1;
    }
    if i == 0 {
        None
    } else {
        Some(i - 1)
    }
}

/// Whether `p[from..to]` is exactly `seg`.
fn segment_is(p: &[u8], from: usize, to: usize, seg: &[u8]) -> (b: bool)
    requires
        from <= to <= p@.len(),
    ensures
        b == (p@.subrange(from as int, to as int) == seg@),
{
    if to - from != seg.len() {
        return false;
    }
    let mut i: usize = 0;
    while i < seg.len()
        invariant
            from <= to <= p@.len(),
            to - from == seg@.len(),
            i <= seg@.len(),
            forall|j: int| 0 <= j < i ==> p@[from + j] == seg@[j],
        decreases seg@.len() - i,
    {
        if p[from + i] != seg[i] {
            assert(p@.subrange(from as int, to as int)[i as int] != seg@[i as int]);
            return false;
        }
        i = i + 1;
    }
    assert(p@.subrange(from as int, to as int) =~= seg@);
    true
}

/// The final component of `path` (see [`file_name_of`]).
pub fn file_name(path: &[u8]) -> (name: Option<Vec<u8>>)
    ensures
        match name {
            Some(n) => file_name_of(path@) == Some(n@),
            None => file_name_of(path@) is None,
        },
{
    let dot_seg: [u8; 1] = [0x2e];
    let dot_dot_seg: [u8; 2] = [0x2e, 0x2e];
    assert(dot_seg@ =~= dot());
    assert(dot_dot_seg@ =~= dot_dot());
    let mut end: usize = path.len();
    assert(path@.take(end as int) =~= path@);
    loop
        invariant
            end <= path@.len(),
            file_name_of(path@) == file_name_of(path@.take(end as int)),
            dot_seg@ == dot(),
            dot_dot_seg@ == dot_dot(),
        decreases end,
    {
        let ghost p = path@.take(end as int);
        proof {
            lemma_last_slash(p);
        }
        let k = find_last_slash(path, end);
        let start: usize = match k {
            Some(k) => k + 1,
            None => 0,
        };
        assert(p.subrange(last_slash(p) + 1, p.len() as int) =~= path@.subrange(
            start as int,
            end as int,
        ));
        if start == end || segment_is(path, start, end, dot_seg.as_slice()) {
            match k {
                None => {
                    return None;
                },
                Some(k) => {
                    assert(p.take(k as int) =~= path@.take(k as int));
                    end = k;
                },
            }
        } else if segment_is(path, start, end, dot_dot_seg.as_slice()) {
            return None;
        } else {
            let name = vstd::slice::slice_to_vec(vstd::slice::slice_subrange(path, start, end));
            return Some(name);
        }
    }
}

/// A path built the way `std::path::PathBuf::push` joins a relative `rest`
/// onto `base`: a `/` goes between them unless `base` is empty or already
/// ends in one.
pub open spec fn joined(base: Seq<u8>, rest: Seq<u8>) -> Seq<u8> {
    if base.len() > 0 && !is_slash(base.last()) {
        base + seq![0x2fu8] + rest
    } else {
        base + rest
    }
}

/// How many bytes of a path joined onto `base` come before the joined part.
pub open spec fn joined_offset(base: Seq<u8>) -> int {
    if base.len() > 0 && !is_slash(base.last()) {
        base.len() + 1int
    } else {
        base.len() as int
    }
}

/// The part of `path` below `base`, when `path` is `base` joined with it.
/// A directory walk builds each entry's path by joining the names beneath
/// the walked directory onto it, so for a walked entry this is the entry's
/// path relative to that directory.
pub open spec fn relative_part(path: Seq<u8>, base: Seq<u8>) -> Option<Seq<u8>> {
    let k = joined_offset(base);
    if k <= path.len() && path == joined(base, path.skip(k)) {
        Some(path.skip(k))
    } else {
        None
    }
}

/// `relative_part` recovers exactly what was joined.
pub proof fn lemma_relative_part_of_joined(base: Seq<u8>, rest: Seq<u8>)
    ensures
        relative_part(joined(base, rest), base) == Some(rest),
{
    let k = joined_offset(base);
    assert(joined(base, rest).skip(k) =~= rest);
}

/// The part of `path` below `base` (see [`relative_part`]).
pub fn relative_to(path: &[u8], base: &[u8]) -> (rel: Option<Vec<u8>>)
    ensures
        match rel {
            Some(r) => relative_part(path@, base@) == Some(r@),
            None => relative_part(path@, base@) is None,
        },
{
    let with_sep = base.len() > 0 && base[base.len() - 1] != 0x2f;
    if base.len() > path.len() || (with_sep && base.len() == path.len()) {
        return None;
    }
    let mut i: usize = 0;
    while i < base.len()
        invariant
            base@.len() <= path@.len(),
            i <= base@.len(),
            forall|j: int| 0 <= j < i ==> path@[j] == base@[j],
        decreases base@.len() - i,
    {
        if path[i] != base[i] {
            assert(joined(base@, path@.skip(joined_offset(base@)))[i as int] == base@[i as int]);
            return None;
        }
        i = i + 1;
    }
    let k: usize = if with_sep { base.len() + 1 } else { base.len() };
    if with_sep && path[base.len()] != 0x2f {
        assert(joined(base@, path@.skip(k as int))[base@.len() as int] == 0x2fu8);
        return None;
    }
    let rest = vstd::slice::slice_to_vec(vstd::slice::slice_subrange(path, k, path.len()));
    assert(rest@ =~= path@.skip(k as int));
    assert(path@ =~= joined(base@, path@.skip(k as int)));
    Some(rest)
}

/// Decodes `bytes` as UTF-8 text, through `std::str::from_utf8`. Trusted:
/// text comes back exactly when the bytes are valid UTF-8, and it is what
/// they encode.
#[verifier::external_body]
pub(crate) fn utf8_text(bytes: &[u8]) -> (text: Option<String>)
    ensures
        text is Some <==> valid_utf8(bytes@),
        text matches Some(t) ==> t@ == decode_utf8(bytes@),
{
    match std::str::from_utf8(bytes) {
        Ok(s) => Some(s.to_string()),
        Err(_) => None,
    }
}

} // verus!
