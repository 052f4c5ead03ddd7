//! Finding the repository marker and the bare parent, reading indirection
//! files, and computing a worktree's path under its bare parent.
//!
//! A directory is given by its components below the filesystem root; the
//! ancestor `k` levels up of a directory with components `d` has components
//! `d[..d.len() - k]`, and the root itself is the ancestor `d.len()` levels up.
use vstd::prelude::*;
use crate::error::Error;
use crate::text::{has_prefix, push_char, push_text, starts_with, text_eq, trim_of, trim_text};

verus! {

/// Parent levels searched for the repository marker.
pub const MAX_GIT_SEARCH_DEPTH: usize = 32;

/// Levels searched for the bare-metadata marker.
pub const MAX_BARE_SEARCH_DEPTH: usize = 4;

/// The characters of each component.
pub open spec fn parts_view(v: Seq<String>) -> Seq<Seq<char>> {
    v.map_values(|s: String| s@)
}

/// The first `k < bound` with `marks[k]`, searching no further than `marks`
/// reaches.
pub open spec fn first_marked(marks: Seq<bool>, bound: int) -> Option<int>
    decreases marks.len(),
{
    if marks.len() == 0 || bound <= 0 {
        None
    } else {
        match first_marked(marks.drop_last(), bound) {
            Some(k) => Some(k),
            None => if marks.len() - 1 < bound && marks.last() {
                Some(marks.len() - 1)
            } else {
                None
            },
        }
    }
}

/// `first_marked` is the least marked index below the bound.
pub proof fn lemma_first_marked(marks: Seq<bool>, bound: int)
    ensures
        match first_marked(marks, bound) {
            Some(k) => 0 <= k < bound && k < marks.len() && marks[k]
                && forall|j: int| 0 <= j < k ==> !marks[j],
            None => forall|j: int| 0 <= j < bound && j < marks.len() ==> !marks[j],
        },
    decreases marks.len(),
{
    if marks.len() > 0 && bound > 0 {
        let d = marks.drop_last();
        lemma_first_marked(d, bound);
        assert(forall|j: int| 0 <= j < d.len() ==> d[j] == marks[j]);
    }
}

/// Searches `marks` (one entry per level, nearest first) for the first marked
/// level below `bound`.
fn first_marked_level(marks: &Vec<bool>, bound: usize) -> (r: Option<usize>)
    ensures
        match r {
            Some(k) => first_marked(marks@, bound as int) == Some(k as int),
            None => first_marked(marks@, bound as int) is None,
        },
{
    let n = if marks.len() < bound { marks.len() } else { bound };
    let mut k: usize = 0;
    while k < n
        invariant
            n <= marks@.len(),
            n <= bound,
            k <= n,
            forall|j: int| 0 <= j < k ==> !marks@[j],
        decreases n - k,
    {
        if marks[k] {
            proof {
                lemma_first_marked(marks@, bound as int);
            }
            return Some(k);
        }
        k = k + 1;
    }
    proof {
        lemma_first_marked(marks@, bound as int);
    }
    None
}

/// The level of the nearest repository marker within the search bound.
pub open spec fn marker_level(marker_present: Seq<bool>) -> Option<int> {
    first_marked(marker_present, MAX_GIT_SEARCH_DEPTH as int)
}

/// Where no level within the search bound holds a marker, the locator finds
/// no repository: an absent result, not an error.
pub proof fn lemma_absent_without_marker(marker_present: Seq<bool>)
    requires
        forall|j: int| 0 <= j < MAX_GIT_SEARCH_DEPTH && j < marker_present.len() ==> !marker_present[j],
    ensures
        marker_level(marker_present) is None,
{
    lemma_first_marked(marker_present, MAX_GIT_SEARCH_DEPTH as int);
}

/// Where the repository marker stands, in levels above the starting
/// directory. `marker_present[k]` says whether the ancestor `k` levels up
/// holds a `.git` entry; the list stops at the filesystem root. The search
/// ends at the first marker, at the root, or after 32 levels: `None` means
/// no repository, which is no error.
pub fn find_git_dir(marker_present: &Vec<bool>) -> (r: Option<usize>)
    ensures
        match r {
            Some(k) => marker_level(marker_present@) == Some(k as int),
            None => marker_level(marker_present@) is None,
        },
        match r {
            Some(k) => k < MAX_GIT_SEARCH_DEPTH && k < marker_present@.len()
                && marker_present@[k as int]
                && forall|j: int| 0 <= j < k ==> !marker_present@[j],
            None => forall|j: int| 0 <= j < MAX_GIT_SEARCH_DEPTH && j < marker_present@.len()
                ==> !marker_present@[j],
        },
{
    let r = first_marked_level(marker_present, MAX_GIT_SEARCH_DEPTH);
    proof {
        lemma_first_marked(marker_present@, MAX_GIT_SEARCH_DEPTH as int);
    }
    r
}

/// The bare parent of a checkout directory with components `work_dir`:
/// `bare_present[k]` says whether its ancestor `k` levels up holds a `.bare`
/// directory. Only levels below 4 that exist (up to the root) are searched;
/// the result is the components of the nearest marked ancestor.
pub open spec fn bare_parent_of(work_dir: Seq<Seq<char>>, bare_present: Seq<bool>) -> Option<
    Seq<Seq<char>>,
> {
    let bound: int = if work_dir.len() + 1 < MAX_BARE_SEARCH_DEPTH {
        work_dir.len() as int + 1
    } else {
        MAX_BARE_SEARCH_DEPTH as int
    };
    match first_marked(bare_present, bound) {
        Some(k) => Some(work_dir.subrange(0, work_dir.len() - k)),
        None => None,
    }
}

/// Searches up from `work_dir` for the directory that holds a `.bare`
/// directory (see `bare_parent_of`).
pub fn find_bare_parent(work_dir: &Vec<String>, bare_present: &Vec<bool>) -> (r: Option<
    Vec<String>,
>)
    ensures
        match bare_parent_of(parts_view(work_dir@), bare_present@) {
            Some(p) => r matches Some(v) && parts_view(v@) == p,
            None => r is None,
        },
{
    let n = work_dir.len();
    let bound = if n < MAX_BARE_SEARCH_DEPTH { n + 1 } else { MAX_BARE_SEARCH_DEPTH };
    match first_marked_level(bare_present, bound) {
        Some(k) => {
            proof {
                lemma_first_marked(bare_present@, bound as int);
            }
            let keep = n - k;
            let mut v: Vec<String> = Vec::new();
            let mut i: usize = 0;
            while i < keep
                invariant
                    keep <= n,
                    n == work_dir@.len(),
                    i <= keep,
                    v@.len() == i,
                    forall|j: int| 0 <= j < i ==> v@[j]@ == work_dir@[j]@,
                decreases keep - i,
            {
                v.push(work_dir[i].clone());
                i = i + 1;
            }
            assert(parts_view(v@) =~= parts_view(work_dir@).subrange(0, keep as int));
            Some(v)
        },
        None => None,
    }
}

pub open spec fn gitdir_tag() -> Seq<char> {
    "gitdir: "@
}

/// The path named by an indirection file, or `None` when the file lacks the
/// `gitdir: ` prefix.
pub open spec fn gitdir_target(content: Seq<char>) -> Option<Seq<char>> {
    if has_prefix(content, gitdir_tag()) {
        Some(trim_of(content.subrange(gitdir_tag().len() as int, content.len() as int)))
    } else {
        None
    }
}

/// Reads an indirection file: the path after `gitdir: `, trimmed. A relative
/// path is taken against the directory that holds the file.
pub fn parse_gitdir_file(content: &str) -> (r: Result<String, Error>)
    ensures
        match gitdir_target(content@) {
            Some(p) => r matches Ok(s) && s@ == p,
            None => r matches Err(Error::MalformedIndirection),
        },
{
    let tag = "gitdir: ";
    proof {
        reveal_strlit("gitdir: ");
    }
    if starts_with(content, tag) {
        let n = content.unicode_len();
        Ok(trim_text(content.substring_char(8, n)).to_owned())
    } else {
        Err(Error::MalformedIndirection)
    }
}

/// Splitting a path text at `/`, read from the left: the finished
/// components, and the component being read.
pub open spec fn split_state(s: Seq<char>) -> (Seq<Seq<char>>, Seq<char>)
    decreases s.len(),
{
    if s.len() == 0 {
        (Seq::empty(), Seq::empty())
    } else {
        let (done, cur) = split_state(s.drop_last());
        if s.last() == '/' {
            (if cur.len() > 0 { done.push(cur) } else { done }, Seq::empty())
        } else {
            (done, cur.push(s.last()))
        }
    }
}

/// The non-empty `/`-separated components of a path text.
pub open spec fn path_parts(s: Seq<char>) -> Seq<Seq<char>> {
    let (done, cur) = split_state(s);
    if cur.len() > 0 {
        done.push(cur)
    } else {
        done
    }
}

pub open spec fn is_absolute(s: Seq<char>) -> bool {
    s.len() > 0 && s[0] == '/'
}

/// The metadata directory an indirection file names: an absolute target as
/// it is, a relative one under the directory that holds the file.
pub open spec fn resolved_target(base: Seq<Seq<char>>, target: Seq<char>) -> Seq<Seq<char>> {
    if is_absolute(target) {
        path_parts(target)
    } else {
        base + path_parts(target)
    }
}

/// The components of the directory named by `target`, taken against the
/// directory with components `base` when it is relative.
pub fn resolve_gitdir(base: &Vec<String>, target: &str) -> (r: Vec<String>)
    ensures
        parts_view(r@) == resolved_target(parts_view(base@), target@),
{
    let n = target.unicode_len();
    let absolute = n > 0 && target.get_char(0) == '/';
    let mut out: Vec<String> = Vec::new();
    if !absolute {
        let mut j: usize = 0;
        while j < base.len()
            invariant
                j <= base@.len(),
                out@.len() == j,
                forall|k: int| 0 <= k < j ==> out@[k]@ == base@[k]@,
            decreases base@.len() - j,
        {
            out.push(base[j].clone());
            j = j + 1;
        }
        assert(parts_view(out@) =~= parts_view(base@));
    }
    let ghost start = parts_view(out@);
    let mut cur = String::new();
    let mut i: usize = 0;
    while i < n
        invariant
            n == target@.len(),
            i <= n,
            parts_view(out@) == start + split_state(target@.subrange(0, i as int)).0,
            cur@ == split_state(target@.subrange(0, i as int)).1,
        decreases n - i,
    {
        let c = target.get_char(i);
        let ghost pre = target@.subrange(0, i as int);
        let ghost post = target@.subrange(0, i + 1);
        assert(post.drop_last() =~= pre);
        let ghost before = out@;
        if c == '/' {
            if cur.unicode_len() > 0 {
                out.push(cur);
                proof {
                    assert(parts_view(out@) =~= parts_view(before).push(split_state(pre).1));
                }
            }
            cur = String::new();
        } else {
            push_char(&mut cur, c);
        }
        i = i + 1;
    }
    assert(target@.subrange(0, n as int) =~= target@);
    let ghost before = out@;
    if cur.unicode_len() > 0 {
        out.push(cur);
        proof {
            assert(parts_view(out@) =~= parts_view(before).push(split_state(target@).1));
        }
    }
    proof {
        if absolute {
            assert(start =~= Seq::<Seq<char>>::empty());
        }
        assert(parts_view(out@) =~= resolved_target(parts_view(base@), target@));
    }
    out
}

/// The components joined by `/`.
pub open spec fn joined(parts: Seq<Seq<char>>) -> Seq<char>
    decreases parts.len(),
{
    if parts.len() == 0 {
        Seq::empty()
    } else if parts.len() == 1 {
        parts[0]
    } else {
        joined(parts.drop_last()).push('/') + parts.last()
    }
}

/// The path of `work_dir` relative to `bare_parent`, or `None` when it is not
/// nested there.
pub open spec fn relative_path(bare_parent: Seq<Seq<char>>, work_dir: Seq<Seq<char>>) -> Option<
    Seq<char>,
> {
    if bare_parent.len() <= work_dir.len() && work_dir.subrange(0, bare_parent.len() as int)
        == bare_parent {
        Some(joined(work_dir.subrange(bare_parent.len() as int, work_dir.len() as int)))
    } else {
        None
    }
}

/// The checkout directory's path relative to its bare parent, its
/// components joined by `/` (empty when they are the same directory).
pub fn get_relative_path(bare_parent: &Vec<String>, work_dir: &Vec<String>) -> (r: Result<
    String,
    Error,
>)
    ensures
        match relative_path(parts_view(bare_parent@), parts_view(work_dir@)) {
            Some(p) => r matches Ok(s) && s@ == p,
            None => r matches Err(Error::PathNotNested),
        },
{
    let b = bare_parent.len();
    let n = work_dir.len();
    let ghost bv = parts_view(bare_parent@);
    let ghost wv = parts_view(work_dir@);
    if b > n {
        return Err(Error::PathNotNested);
    }
    let mut i: usize = 0;
    while i < b
        invariant
            b == bare_parent@.len(),
            n == work_dir@.len(),
            b <= n,
            i <= b,
            bv == parts_view(bare_parent@),
            wv == parts_view(work_dir@),
            forall|j: int| 0 <= j < i ==> wv[j] == bv[j],
        decreases b - i,
    {
        if !text_eq(work_dir[i].as_str(), bare_parent[i].as_str()) {
            proof {
                assert(wv.subrange(0, b as int)[i as int] != bv[i as int]);
            }
            return Err(Error::PathNotNested);
        }
        i = i + 1;
    }
    assert(wv.subrange(0, b as int) =~= bv);
    let ghost rest = wv.subrange(b as int, n as int);
    let mut out = String::new();
    let mut k: usize = b;
    while k < n
        invariant
            b <= k <= n,
            n == work_dir@.len(),
            wv == parts_view(work_dir@),
            rest == wv.subrange(b as int, n as int),
            out@ == joined(rest.subrange(0, k - b)),
        decreases n - k,
    {
        let ghost before = out@;
        if k > b {
            push_char(&mut out, '/');
        }
        push_text(&mut out, work_dir[k].as_str());
        proof {
            let s = rest.subrange(0, k + 1 - b);
            assert(s.drop_last() =~= rest.subrange(0, k - b));
            assert(s.last() == wv[k as int]);
            if k == b {
                assert(before =~= Seq::<char>::empty());
                assert(out@ =~= s[0]);
            }
        }
        k = k + 1;
    }
    assert(rest.subrange(0, n - b) =~= rest);
    Ok(out)
}

} // verus!
