//! The output formatter: which line the prompt shows.
use vstd::prelude::*;
use crate::error::Error;
use crate::head::{head_label, read_git_head};
use crate::locate::{
    bare_parent_of, find_bare_parent, first_marked, get_relative_path, lemma_first_marked, parts_view,
    relative_path, MAX_BARE_SEARCH_DEPTH,
};
use crate::text::{push_char, push_text, text_eq, trim_of};

verus! {

/// The two glyphs of the prompt line.
pub struct Icons {
    /// Shown before a branch label.
    pub branch: String,
    /// Shown before a worktree path.
    pub worktree: String,
}

pub open spec fn default_branch_icon() -> Seq<char> {
    "\u{2387}"@
}

pub open spec fn default_worktree_icon() -> Seq<char> {
    "\u{1F333}"@
}

impl Icons {
    /// Icons with the given glyphs.
    pub fn new(branch: String, worktree: String) -> (r: Icons)
        ensures
            r.branch@ == branch@,
            r.worktree@ == worktree@,
    {
        Icons { branch, worktree }
    }

    /// The default glyphs: `⎇` for branches and `🌳` for worktrees.
    pub fn standard() -> (r: Icons)
        ensures
            r.branch@ == default_branch_icon(),
            r.worktree@ == default_worktree_icon(),
    {
        Icons { branch: "\u{2387}".to_owned(), worktree: "\u{1F333}".to_owned() }
    }
}

/// `p` without its trailing `/` characters.
pub open spec fn strip_trailing_slashes(p: Seq<char>) -> Seq<char>
    decreases p.len(),
{
    if p.len() > 0 && p.last() == '/' {
        strip_trailing_slashes(p.drop_last())
    } else {
        p
    }
}

/// Each `/` of `p` turned into `-`.
pub open spec fn slashes_to_hyphens(p: Seq<char>) -> Seq<char> {
    p.map_values(|c: char| if c == '/' { '-' } else { c })
}

/// The form of a worktree path that is compared with a branch label.
pub open spec fn normalized(p: Seq<char>) -> Seq<char> {
    slashes_to_hyphens(strip_trailing_slashes(p))
}

/// Stripping trailing slashes keeps a prefix, and the character after it is
/// not a slash; only slashes follow it.
proof fn lemma_strip_is_prefix(p: Seq<char>, e: int)
    requires
        0 <= e <= p.len(),
        e == 0 || p[e - 1] != '/',
        forall|j: int| e <= j < p.len() ==> p[j] == '/',
    ensures
        strip_trailing_slashes(p) == p.subrange(0, e),
    decreases p.len(),
{
    if p.len() > e {
        lemma_strip_is_prefix(p.drop_last(), e);
        assert(p.drop_last().subrange(0, e) =~= p.subrange(0, e));
    } else {
        assert(p.subrange(0, e) =~= p);
    }
}

/// The worktree path with trailing `/` removed and every other `/` turned
/// into `-`.
pub fn normalize_path(path: &str) -> (r: String)
    ensures
        r@ == normalized(path@),
{
    let n = path.unicode_len();
    let mut e: usize = n;
    while e > 0 && path.get_char(e - 1) == '/'
        invariant
            n == path@.len(),
            e <= n,
            forall|j: int| e <= j < n ==> path@[j] == '/',
        decreases e,
    {
        e = e - 1;
    }
    proof {
        lemma_strip_is_prefix(path@, e as int);
    }
    let ghost kept = path@.subrange(0, e as int);
    let mut out = String::new();
    let mut i: usize = 0;
    while i < e
        invariant
            n == path@.len(),
            e <= n,
            i <= e,
            kept == path@.subrange(0, e as int),
            out@ =~= slashes_to_hyphens(kept.subrange(0, i as int)),
        decreases e - i,
    {
        let c = path.get_char(i);
        if c == '/' {
            push_char(&mut out, '-');
        } else {
            push_char(&mut out, c);
        }
        i = i + 1;
    }
    assert(kept.subrange(0, e as int) =~= kept);
    out
}

/// The line of an ordinary repository.
pub open spec fn regular_text(branch_icon: Seq<char>, label: Seq<char>) -> Seq<char> {
    branch_icon + " "@ + label
}

/// The line inside a linked worktree: the branch half is left out when the
/// normalized worktree path equals the branch label.
pub open spec fn worktree_text(
    worktree_icon: Seq<char>,
    branch_icon: Seq<char>,
    path: Seq<char>,
    label: Seq<char>,
) -> Seq<char> {
    if normalized(path) == label {
        worktree_icon + " "@ + path
    } else {
        worktree_icon + " "@ + path + " \u{2192} "@ + branch_icon + " "@ + label
    }
}

/// The line in the bare parent directory itself.
pub open spec fn bare_text(worktree_icon: Seq<char>) -> Seq<char> {
    worktree_icon + " [bare]"@
}

/// The line of an ordinary repository: the branch icon and the label.
pub fn format_output_regular(icons: &Icons, branch: &str) -> (r: String)
    ensures
        r@ == regular_text(icons.branch@, branch@),
{
    let mut out = icons.branch.clone();
    push_text(&mut out, " ");
    push_text(&mut out, branch);
    out
}

/// The line inside a linked worktree at `worktree_path` on branch `branch`.
pub fn format_output_worktree(icons: &Icons, worktree_path: &str, branch: &str) -> (r: String)
    ensures
        r@ == worktree_text(icons.worktree@, icons.branch@, worktree_path@, branch@),
{
    let normal = normalize_path(worktree_path);
    let label = branch.to_owned();
    let mut out = icons.worktree.clone();
    push_text(&mut out, " ");
    push_text(&mut out, worktree_path);
    if normal == label {
        return out;
    }
    push_text(&mut out, " \u{2192} ");
    push_text(&mut out, icons.branch.as_str());
    push_text(&mut out, " ");
    push_text(&mut out, branch);
    out
}

/// The line in the bare parent directory, outside any worktree.
pub fn format_output_bare(icons: &Icons) -> (r: String)
    ensures
        r@ == bare_text(icons.worktree@),
{
    let mut out = icons.worktree.clone();
    push_text(&mut out, " [bare]");
    out
}

/// Whether a relative worktree path names the bare parent itself.
pub open spec fn is_bare_location(p: Seq<char>) -> bool {
    p.len() == 0 || p == "."@
}

/// The line shown for branch label `label`, given the worktree path relative
/// to the bare parent, if a bare parent was found.
pub open spec fn prompt_line(
    branch_icon: Seq<char>,
    worktree_icon: Seq<char>,
    label: Seq<char>,
    rel: Option<Seq<char>>,
) -> Seq<char> {
    match rel {
        None => regular_text(branch_icon, label),
        Some(p) => if is_bare_location(p) {
            bare_text(worktree_icon)
        } else {
            worktree_text(worktree_icon, branch_icon, p, label)
        },
    }
}

/// When the normalized worktree path equals the branch label, the line names
/// the worktree alone; otherwise it names both.
pub proof fn lemma_branch_half_omitted(iw: Seq<char>, ib: Seq<char>, p: Seq<char>, l: Seq<char>)
    ensures
        normalized(p) == l ==> worktree_text(iw, ib, p, l) == iw + " "@ + p,
        normalized(p) != l ==> worktree_text(iw, ib, p, l) == iw + " "@ + p + " \u{2192} "@ + ib
            + " "@ + l,
{
}

/// The bare parent found above a checkout directory always contains it, so
/// the relative path can always be computed.
pub proof fn lemma_bare_parent_nested(work_dir: Seq<Seq<char>>, bare_present: Seq<bool>)
    ensures
        match bare_parent_of(work_dir, bare_present) {
            Some(bp) => relative_path(bp, work_dir) is Some,
            None => true,
        },
{
    let bound: int = if work_dir.len() + 1 < MAX_BARE_SEARCH_DEPTH {
        work_dir.len() as int + 1
    } else {
        MAX_BARE_SEARCH_DEPTH as int
    };
    lemma_first_marked(bare_present, bound);
    match first_marked(bare_present, bound) {
        Some(k) => {
            let bp = work_dir.subrange(0, work_dir.len() - k);
            assert(work_dir.subrange(0, bp.len() as int) =~= bp);
        },
        None => {},
    }
}

/// Decides the prompt line once the repository marker has been found.
///
/// `head` is the content of the current-reference file, or `None` where
/// there is none (a bare repository: no line). `work_dir` holds the
/// components of the checkout directory and `bare_present[k]` whether its
/// ancestor `k` levels up holds a `.bare` directory.
pub fn run(icons: &Icons, head: Option<&str>, work_dir: &Vec<String>, bare_present: &Vec<bool>) -> (r:
    Result<Option<String>, Error>)
    ensures
        match head {
            None => r matches Ok(None),
            Some(c) => match head_label(trim_of(c@)) {
                None => r matches Err(Error::MalformedReference),
                Some(l) => match bare_parent_of(parts_view(work_dir@), bare_present@) {
                    None => r matches Ok(Some(s)) && s@ == prompt_line(
                        icons.branch@,
                        icons.worktree@,
                        l,
                        None,
                    ),
                    Some(bp) => r matches Ok(Some(s)) && s@ == prompt_line(
                        icons.branch@,
                        icons.worktree@,
                        l,
                        relative_path(bp, parts_view(work_dir@)),
                    ),
                },
            },
        },
{
    let content = match head {
        None => return Ok(None),
        Some(c) => c,
    };
    let branch = match read_git_head(content) {
        Ok(b) => b,
        Err(e) => return Err(e),
    };
    proof {
        lemma_bare_parent_nested(parts_view(work_dir@), bare_present@);
    }
    match find_bare_parent(work_dir, bare_present) {
        Some(bare_parent) => {
            let rel = match get_relative_path(&bare_parent, work_dir) {
                Ok(p) => p,
                Err(e) => return Err(e),
            };
            let dot = ".";
            proof {
                reveal_strlit(".");
            }
            if rel.unicode_len() == 0 || text_eq(rel.as_str(), dot) {
                Ok(Some(format_output_bare(icons)))
            } else {
                Ok(Some(format_output_worktree(icons, rel.as_str(), branch.as_str())))
            }
        },
        None => Ok(Some(format_output_regular(icons, branch.as_str()))),
    }
}

} // verus!
