//! Reading the current-reference file into a short display label.
use vstd::prelude::*;
use crate::error::Error;
use crate::text::{has_prefix, starts_with, trim_text, trim_of};

verus! {

/// Characters shown of a content hash.
pub const ABBREV_LEN: usize = 7;

/// Length of a full content hash.
pub const FULL_HASH_LEN: usize = 40;

pub open spec fn symbolic_tag() -> Seq<char> {
    "ref: "@
}

pub open spec fn branch_tag() -> Seq<char> {
    "refs/heads/"@
}

pub open spec fn is_hex_digit(c: char) -> bool {
    ('0' <= c && c <= '9') || ('a' <= c && c <= 'f') || ('A' <= c && c <= 'F')
}

/// Whether `t` is a full content hash: 40 hexadecimal characters.
pub open spec fn is_full_hash(t: Seq<char>) -> bool {
    t.len() == FULL_HASH_LEN && forall|i: int| 0 <= i < t.len() ==> is_hex_digit(#[trigger] t[i])
}

/// Where the final `/`-separated segment of `r` starts.
pub open spec fn segment_start(r: Seq<char>) -> int
    decreases r.len(),
{
    if r.len() == 0 {
        0
    } else if r.last() == '/' {
        r.len() as int
    } else {
        segment_start(r.drop_last())
    }
}

/// The text after the last `/` of `r` (all of `r` when it has none).
pub open spec fn last_segment(r: Seq<char>) -> Seq<char> {
    r.subrange(segment_start(r), r.len() as int)
}

/// The label of trimmed current-reference content, or `None` when its format
/// is unknown.
pub open spec fn head_label(t: Seq<char>) -> Option<Seq<char>> {
    if has_prefix(t, symbolic_tag()) {
        let r = t.subrange(symbolic_tag().len() as int, t.len() as int);
        if has_prefix(r, branch_tag()) {
            Some(r.subrange(branch_tag().len() as int, r.len() as int))
        } else {
            Some(last_segment(r))
        }
    } else if is_full_hash(t) {
        Some(t.subrange(0, ABBREV_LEN as int))
    } else if t.len() >= ABBREV_LEN {
        Some(t.subrange(0, ABBREV_LEN as int))
    } else {
        None
    }
}

/// Every character of `r` from `i` on is not a `/`, and the one before `i`
/// (if any) is: then the final segment starts at `i`.
pub proof fn lemma_segment_start(r: Seq<char>, i: int)
    requires
        0 <= i <= r.len(),
        forall|j: int| i <= j < r.len() ==> r[j] != '/',
        i == 0 || r[i - 1] == '/',
    ensures
        segment_start(r) == i,
    decreases r.len(),
{
    if r.len() > i {
        lemma_segment_start(r.drop_last(), i);
    }
}

/// A full content hash (forty hexadecimal characters) is labelled by its
/// first seven characters, whatever else it might resemble.
pub proof fn lemma_full_hash_label(t: Seq<char>)
    requires
        is_full_hash(t),
    ensures
        head_label(t) == Some(t.subrange(0, ABBREV_LEN as int)),
{
    reveal_strlit("ref: ");
    if has_prefix(t, symbolic_tag()) {
        assert(t.subrange(0, 5)[0] == 'r');
        assert(is_hex_digit(t[0]));
    }
}

/// Content `ref: refs/heads/X` is labelled `X` exactly.
pub proof fn lemma_branch_label(x: Seq<char>)
    ensures
        head_label(symbolic_tag() + branch_tag() + x) == Some(x),
{
    reveal_strlit("ref: ");
    reveal_strlit("refs/heads/");
    let t = symbolic_tag() + branch_tag() + x;
    assert(t.subrange(0, 5) =~= symbolic_tag());
    let r = t.subrange(5, t.len() as int);
    assert(r =~= branch_tag() + x);
    assert(r.subrange(0, 11) =~= branch_tag());
    assert(r.subrange(11, r.len() as int) =~= x);
}

/// Content `ref: P/X`, where `P` is not under `refs/heads/` and `X` holds no
/// `/`, is labelled by its final segment `X` (so `ref: refs/tags/X` gives `X`).
pub proof fn lemma_other_ref_label(p: Seq<char>, x: Seq<char>)
    requires
        !has_prefix(p.push('/') + x, branch_tag()),
        forall|j: int| 0 <= j < x.len() ==> x[j] != '/',
    ensures
        head_label(symbolic_tag() + p.push('/') + x) == Some(x),
{
    reveal_strlit("ref: ");
    let r = p.push('/') + x;
    let t = symbolic_tag() + r;
    assert(t.subrange(0, 5) =~= symbolic_tag());
    assert(t.subrange(5, t.len() as int) =~= r);
    let i = p.len() as int + 1;
    assert forall|j: int| i <= j < r.len() implies r[j] != '/' by {
        assert(r[j] == x[j - i]);
    }
    assert(r[i - 1] == '/');
    lemma_segment_start(r, i);
    assert(r.subrange(i, r.len() as int) =~= x);
    assert(symbolic_tag() + p.push('/') + x == t);
}

fn char_is_hex_digit(c: char) -> (r: bool)
    ensures
        r == is_hex_digit(c),
{
    ('0' <= c && c <= '9') || ('a' <= c && c <= 'f') || ('A' <= c && c <= 'F')
}

fn is_full_hash_text(t: &str) -> (r: bool)
    ensures
        r == is_full_hash(t@),
{
    let n = t.unicode_len();
    if n != FULL_HASH_LEN {
        return false;
    }
    let mut i: usize = 0;
    while i < n
        invariant
            n == t@.len(),
            i <= n,
            forall|j: int| 0 <= j < i ==> is_hex_digit(#[trigger] t@[j]),
        decreases n - i,
    {
        if !char_is_hex_digit(t.get_char(i)) {
            return false;
        }
        i = i + 1;
    }
    true
}

/// The final `/`-separated segment of `r`.
pub fn final_segment(r: &str) -> (s: String)
    ensures
        s@ == last_segment(r@),
{
    let n = r.unicode_len();
    let mut i: usize = n;
    while i > 0 && r.get_char(i - 1) != '/'
        invariant
            n == r@.len(),
            i <= n,
            forall|j: int| i <= j < n ==> r@[j] != '/',
        decreases i,
    {
        i = i - 1;
    }
    proof {
        lemma_segment_start(r@, i as int);
    }
    r.substring_char(i, n).to_owned()
}

/// The display label of already trimmed current-reference content: the
/// branch name, the final segment of another reference, or the first seven
/// characters of a content hash.
pub fn label_from_trimmed(t: &str) -> (r: Result<String, Error>)
    ensures
        match head_label(t@) {
            Some(l) => r matches Ok(s) && s@ == l,
            None => r matches Err(Error::MalformedReference),
        },
{
    let sym = "ref: ";
    let br = "refs/heads/";
    proof {
        reveal_strlit("ref: ");
        reveal_strlit("refs/heads/");
    }
    let n = t.unicode_len();
    if starts_with(t, sym) {
        let rest = t.substring_char(5, n);
        let m = rest.unicode_len();
        if starts_with(rest, br) {
            return Ok(rest.substring_char(11, m).to_owned());
        }
        return Ok(final_segment(rest));
    }
    if is_full_hash_text(t) {
        return Ok(t.substring_char(0, ABBREV_LEN).to_owned());
    }
    if n >= ABBREV_LEN {
        return Ok(t.substring_char(0, ABBREV_LEN).to_owned());
    }
    Err(Error::MalformedReference)
}

/// The display label of the current-reference file's content, read after
/// trimming surrounding whitespace.
pub fn read_git_head(content: &str) -> (r: Result<String, Error>)
    ensures
        match head_label(trim_of(content@)) {
            Some(l) => r matches Ok(s) && s@ == l,
            None => r matches Err(Error::MalformedReference),
        },
{
    label_from_trimmed(trim_text(content))
}

} // verus!
