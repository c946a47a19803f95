//! File names and stems of `/`-separated paths.
//!
//! A post's slug is the stem of the file that its path names.  The rules are
//! those of a Unix path: `/` separates components, trailing separators and
//! trailing `.` components are ignored, and a path that ends in `..` names no
//! file.

use vstd::prelude::*;
use crate::text::chars_of;

verus! {

/// The position of the last `c` in `s`, or -1 where `s` holds none.
pub open spec fn last_index_of(s: Seq<char>, c: char) -> int
    decreases s.len(),
{
    if s.len() == 0 {
        -1
    } else if s.last() == c {
        s.len() - 1
    } else {
        last_index_of(s.drop_last(), c)
    }
}

/// `p` without the separators and `.` components that end it.
pub open spec fn strip_trailing(p: Seq<char>) -> Seq<char>
    decreases p.len(),
{
    if p.len() > 0 && p.last() == '/' {
        strip_trailing(p.drop_last())
    } else if p.len() >= 2 && p.last() == '.' && p[p.len() - 2] == '/' {
        strip_trailing(p.drop_last())
    } else {
        p
    }
}

/// The final component of `p`, where it names a file or directory.
pub open spec fn name_of(p: Seq<char>) -> Option<Seq<char>> {
    let q = strip_trailing(p);
    let name = q.skip(last_index_of(q, '/') + 1);
    if name.len() == 0 || name == seq!['.'] || name == seq!['.', '.'] {
        None
    } else {
        Some(name)
    }
}

/// `name` without its extension: the part before the last `.`, or all of
/// `name` where it holds no `.` or only a leading one.
pub open spec fn stem_of_name(name: Seq<char>) -> Seq<char> {
    let dot = last_index_of(name, '.');
    if dot <= 0 {
        name
    } else {
        name.take(dot)
    }
}

/// The stem of the file that `p` names.
pub open spec fn stem_of(p: Seq<char>) -> Option<Seq<char>> {
    match name_of(p) {
        Some(name) => Some(stem_of_name(name)),
        None => None,
    }
}

/// `last_index_of` gives a position of `c`, and no later position holds `c`.
pub proof fn lemma_last_index_of(s: Seq<char>, c: char)
    ensures
        -1 <= last_index_of(s, c) < s.len(),
        last_index_of(s, c) >= 0 ==> s[last_index_of(s, c)] == c,
        forall|j: int| last_index_of(s, c) < j < s.len() ==> s[j] != c,
    decreases s.len(),
{
    if s.len() > 0 && s.last() != c {
        lemma_last_index_of(s.drop_last(), c);
        assert forall|j: int| last_index_of(s, c) < j < s.len() implies s[j] != c by {
            if j < s.len() - 1 {
                assert(s.drop_last()[j] == s[j]);
            }
        }
    }
}

/// A stem is never empty.
pub proof fn lemma_stem_nonempty(p: Seq<char>)
    ensures
        stem_of(p) matches Some(stem) ==> stem.len() > 0,
{
    if let Some(name) = name_of(p) {
        lemma_last_index_of(name, '.');
    }
}

/// The position of the last `c` among the first `end` characters of `v`.
fn last_index_in(v: &Vec<char>, c: char, end: usize) -> (r: Option<usize>)
    requires
        end <= v.len(),
    ensures
        match r {
            Some(i) => i < end && last_index_of(v@.take(end as int), c) == i,
            None => last_index_of(v@.take(end as int), c) == -1,
        },
{
    let mut i: usize = end;
    while i > 0
        invariant
            i <= end <= v.len(),
            last_index_of(v@.take(end as int), c) == last_index_of(v@.take(i as int), c),
        decreases i,
    {
        if v[i - 1] == c {
            return Some(i - 1);
        }
        assert(v@.take(i as int).drop_last() =~= v@.take(i - 1));
        i -= 1;
    }
    None
}

/// The stem of the file that `path` names: the slug of a post at that path.
pub fn file_stem(path: &str) -> (r: Option<String>)
    ensures
        match r {
            Some(stem) => stem_of(path@) == Some(stem@) && stem@.len() > 0,
            None => stem_of(path@) is None,
        },
{
    let v = chars_of(path);
    let mut end: usize = v.len();
    assert(v@.take(end as int) =~= v@);
    while end > 0 && (v[end - 1] == '/' || (end >= 2 && v[end - 1] == '.' && v[end - 2] == '/'))
        invariant
            end <= v.len(),
            strip_trailing(v@) == strip_trailing(v@.take(end as int)),
        decreases end,
    {
        assert(v@.take(end as int).drop_last() =~= v@.take(end - 1));
        end -= 1;
    }
    let ghost q = v@.take(end as int);
    assert(strip_trailing(v@) == q);
    let start: usize = match last_index_in(&v, '/', end) {
        Some(i) => i + 1,
        None => 0,
    };
    let ghost name = q.skip(start as int);
    assert(name =~= v@.subrange(start as int, end as int));
    let len: usize = end - start;
    if len == 0 || (len == 1 && v[start] == '.') || (len == 2 && v[start] == '.' && v[start + 1]
        == '.') {
        assert(len == 1 ==> name =~= seq![v@[start as int]]);
        assert(len == 2 ==> name =~= seq![v@[start as int], v@[start + 1]]);
        return None;
    }
    assert(name != seq!['.']) by {
        if name == seq!['.'] {
            assert(name.len() == 1 && name[0] == '.');
        }
    }
    assert(name != seq!['.', '.']) by {
        if name == seq!['.', '.'] {
            assert(name.len() == 2 && name[0] == '.' && name[1] == '.');
        }
    }
    proof {
        lemma_stem_nonempty(path@);
    }
    let stop: usize = match last_index_in(&v, '.', end) {
        Some(dot) => if dot > start {
            dot
        } else {
            end
        },
        None => end,
    };
    proof {
        lemma_dot_in_name(q, start as int);
        assert(name.take(stop - start) =~= v@.subrange(start as int, stop as int));
        assert(name.take(name.len() as int) =~= name);
    }
    Some(path.substring_char(start, stop).to_owned())
}

/// The last `c` of a path's final part is the path's last `c`, where that one
/// lies in the final part.
proof fn lemma_dot_in_name(q: Seq<char>, start: int)
    requires
        0 <= start <= q.len(),
    ensures
        last_index_of(q.skip(start), '.') == if last_index_of(q, '.') >= start {
            last_index_of(q, '.') - start
        } else {
            -1
        },
    decreases q.len(),
{
    if q.len() > start {
        assert(q.skip(start).drop_last() =~= q.drop_last().skip(start));
        if q.last() != '.' {
            lemma_dot_in_name(q.drop_last(), start);
        }
    } else {
        lemma_last_index_of(q, '.');
        assert(q.skip(start) =~= Seq::<char>::empty());
    }
}

} // verus!
