//! Index snapshots and shell-glob classification by name.

use vstd::prelude::*;

verus! {

/// One remote index as seen at scan time.
#[derive(Clone, Debug)]
pub struct IndexRef {
    pub index_name: String,
    pub size: u64,
}

/// A configuration that cannot be used.
#[derive(Clone, Debug)]
pub enum ConfigError {
    /// The glob pattern does not compile.
    InvalidPattern(String),
}

/// Whether the glob pattern compiles to a regular expression.
pub uninterp spec fn glob_valid(pattern: Seq<char>) -> bool;

/// Whether a name matches the whole of a compiled glob pattern.
pub uninterp spec fn glob_matches(pattern: Seq<char>, name: Seq<char>) -> bool;

/// Relies on fnmatch_regex::glob_to_regex: whether the pattern compiles,
/// which depends on the pattern alone.
#[verifier::external_body]
fn glob_compiles(pattern: &str) -> (r: bool)
    ensures
        r == glob_valid(pattern@),
{
    fnmatch_regex::glob_to_regex(pattern).is_ok()
}

/// Relies on fnmatch_regex::glob_to_regex and Regex::is_match: whether the
/// anchored expression built from the pattern matches the name.
#[verifier::external_body]
pub(crate) fn glob_is_match(pattern: &str, name: &str) -> (r: bool)
    requires
        glob_valid(pattern@),
    ensures
        r == glob_matches(pattern@, name@),
{
    match fnmatch_regex::glob_to_regex(pattern) {
        Ok(re) => re.is_match(name),
        Err(_) => false,
    }
}

/// Checks a glob pattern, naming it in the error when it does not compile.
pub fn check_pattern(pattern: &String) -> (r: Result<(), ConfigError>)
    ensures
        r is Ok <==> glob_valid(pattern@),
        r matches Err(ConfigError::InvalidPattern(p)) ==> p@ == pattern@,
{
    if glob_compiles(pattern.as_str()) {
        Ok(())
    } else {
        Err(ConfigError::InvalidPattern(pattern.clone()))
    }
}

/// Sum of all sizes.
pub open spec fn total_size(s: Seq<IndexRef>) -> nat
    decreases s.len(),
{
    if s.len() == 0 {
        0
    } else {
        total_size(s.drop_last()) + s.last().size as nat
    }
}

/// Sum of the sizes at the positions that `keep` marks.
pub open spec fn kept_size(s: Seq<IndexRef>, keep: Seq<bool>) -> nat
    decreases s.len(),
{
    if s.len() == 0 {
        0
    } else {
        kept_size(s.drop_last(), keep) + if keep[s.len() - 1] { s.last().size as nat } else { 0 }
    }
}

/// Marks the positions whose name matches the pattern.
pub open spec fn match_mask(s: Seq<IndexRef>, pattern: Seq<char>) -> Seq<bool> {
    Seq::new(s.len(), |i: int| glob_matches(pattern, s[i].index_name@))
}

/// The indices whose name matches the pattern, in their order.
pub open spec fn matching(s: Seq<IndexRef>, pattern: Seq<char>) -> Seq<IndexRef>
    decreases s.len(),
{
    if s.len() == 0 {
        seq![]
    } else if glob_matches(pattern, s.last().index_name@) {
        matching(s.drop_last(), pattern).push(s.last())
    } else {
        matching(s.drop_last(), pattern)
    }
}

pub proof fn lemma_kept_size_bounded(s: Seq<IndexRef>, keep: Seq<bool>)
    ensures
        kept_size(s, keep) <= total_size(s),
    decreases s.len(),
{
    if s.len() > 0 {
        lemma_kept_size_bounded(s.drop_last(), keep);
    }
}

pub proof fn lemma_total_size_prefix(s: Seq<IndexRef>, i: int)
    requires
        0 <= i <= s.len(),
    ensures
        total_size(s.take(i)) <= total_size(s),
    decreases s.len() - i,
{
    if i < s.len() {
        lemma_total_size_prefix(s, i + 1);
        assert(s.take(i + 1).drop_last() =~= s.take(i));
    } else {
        assert(s.take(i) =~= s);
    }
}

/// The indices whose name matches the glob pattern, in their order; an
/// error when the pattern does not compile.
pub fn filter_indices_by_pattern(indices: &Vec<IndexRef>, index_pattern: &String) -> (r: Result<
    Vec<IndexRef>,
    ConfigError,
>)
    ensures
        r is Ok <==> glob_valid(index_pattern@),
        r matches Err(ConfigError::InvalidPattern(p)) ==> p@ == index_pattern@,
        r matches Ok(v) ==> v@ == matching(indices@, index_pattern@),
{
    match check_pattern(index_pattern) {
        Err(e) => Err(e),
        Ok(()) => {
            let mut out: Vec<IndexRef> = Vec::new();
            let mut i: usize = 0;
            while i < indices.len()
                invariant
                    i <= indices.len(),
                    glob_valid(index_pattern@),
                    out@ == matching(indices@.take(i as int), index_pattern@),
                decreases indices.len() - i,
            {
                let idx = &indices[i];
                assert(indices@.take(i + 1).drop_last() =~= indices@.take(i as int));
                if glob_is_match(index_pattern.as_str(), idx.index_name.as_str()) {
                    out.push(IndexRef { index_name: idx.index_name.clone(), size: idx.size });
                }
                i = i + 1;
            }
            assert(indices@.take(indices.len() as int) =~= indices@);
            Ok(out)
        }
    }
}

} // verus!
