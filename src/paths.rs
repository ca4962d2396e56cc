//! Naming of staging artifacts.
use vstd::prelude::*;
use vstd::string::StrSliceExecFns;
use vstd::string::StringExecFns;

verus! {

/// The suffix that marks a staging artifact: `<destination>.downloading`.
pub open spec fn staging_suffix() -> Seq<char> {
    seq!['.', 'd', 'o', 'w', 'n', 'l', 'o', 'a', 'd', 'i', 'n', 'g']
}

/// Number of characters in the staging suffix.
pub const STAGING_SUFFIX_LEN: usize = 12;

/// `s` ends with the staging suffix.
pub open spec fn has_staging_suffix(s: Seq<char>) -> bool {
    &&& s.len() >= 12
    &&& s.subrange(s.len() - 12, s.len() as int) == staging_suffix()
}

/// `s` with its staging suffix removed, where it has one.
pub open spec fn strip_staging(s: Seq<char>) -> Seq<char> {
    if has_staging_suffix(s) {
        s.subrange(0, s.len() - 12)
    } else {
        s
    }
}

/// The staging artifact's path for a destination.
pub fn staging_path(destination: &str) -> (r: String)
    ensures
        r@ == destination@ + staging_suffix(),
{
    let owned = String::from_str(destination);
    proof {
        reveal_strlit(".downloading");
    }
    let r = owned.concat(".downloading");
    assert(".downloading"@ =~= staging_suffix());
    r
}

/// Whether the first `end` characters of `s` end with the staging suffix.
fn prefix_has_staging_suffix(s: &str, end: usize) -> (r: bool)
    requires
        end <= s@.len(),
    ensures
        r == has_staging_suffix(s@.subrange(0, end as int)),
{
    if end < STAGING_SUFFIX_LEN {
        return false;
    }
    proof {
        reveal_strlit(".downloading");
    }
    let suffix = ".downloading";
    let start = end - STAGING_SUFFIX_LEN;
    let ghost pre = s@.subrange(0, end as int);
    let mut i: usize = 0;
    while i < STAGING_SUFFIX_LEN
        invariant
            start + STAGING_SUFFIX_LEN == end,
            end <= s@.len(),
            pre == s@.subrange(0, end as int),
            suffix@ == staging_suffix(),
            i <= STAGING_SUFFIX_LEN,
            forall|k: int| 0 <= k < i ==> s@[start + k] == staging_suffix()[k],
        decreases STAGING_SUFFIX_LEN - i,
    {
        if s.get_char(start + i) != suffix.get_char(i) {
            assert(pre.subrange(pre.len() - 12, pre.len() as int)[i as int] != staging_suffix()[i as int]);
            return false;
        }
        i = i + 1;
    }
    assert(pre.subrange(pre.len() - 12, pre.len() as int) =~= staging_suffix());
    true
}

/// The final path that a staging artifact stands for: the path with its
/// staging suffix removed, or `None` where it has none.
pub fn final_path_of(path: &str) -> (r: Option<String>)
    ensures
        r is Some <==> has_staging_suffix(path@),
        r matches Some(p) ==> p@ == strip_staging(path@),
{
    let len = path.unicode_len();
    assert(path@.subrange(0, len as int) =~= path@);
    if !prefix_has_staging_suffix(path, len) {
        return None;
    }
    let stem = path.substring_char(0, len - STAGING_SUFFIX_LEN);
    Some(String::from_str(stem))
}

} // verus!
