//! Index paths as cache keys.
//!
//! A path addresses an index whatever number of separators trails it, so
//! the caches key by the path without its trailing separators.

use vstd::prelude::*;
use vstd::string::StrSliceExecFns;
use vstd::string::StringExecFns;

verus! {

/// The path separator.
pub const SEPARATOR: char = '/';

/// The number of leading characters of `path` that remain once every
/// trailing separator is taken away.
pub open spec fn kept_len(path: Seq<char>) -> nat
    decreases path.len(),
{
    if path.len() > 0 && path.last() == SEPARATOR {
        kept_len(path.drop_last())
    } else {
        path.len()
    }
}

/// `path` without its trailing separators: the key of the index at `path`.
pub open spec fn normalized(path: Seq<char>) -> Seq<char> {
    path.take(kept_len(path) as int)
}

/// `path` is its own key.
pub open spec fn is_normal(path: Seq<char>) -> bool {
    path.len() == 0 || path.last() != SEPARATOR
}

/// What `kept_len` cuts off is separators only, and what it keeps does not
/// end in one.
pub proof fn lemma_kept_len(path: Seq<char>)
    ensures
        kept_len(path) <= path.len(),
        kept_len(path) > 0 ==> path[kept_len(path) - 1] != SEPARATOR,
        forall|i: int| kept_len(path) <= i < path.len() ==> path[i] == SEPARATOR,
    decreases path.len(),
{
    if path.len() > 0 && path.last() == SEPARATOR {
        let shorter = path.drop_last();
        lemma_kept_len(shorter);
        assert forall|i: int| kept_len(path) <= i < path.len() implies path[i] == SEPARATOR by {
            if i < shorter.len() {
                assert(shorter[i] == path[i]);
            }
        }
        if kept_len(path) > 0 {
            assert(shorter[kept_len(path) - 1] == path[kept_len(path) - 1]);
        }
    }
}

/// A key does not end in a separator.
pub proof fn lemma_normalized_is_normal(path: Seq<char>)
    ensures
        is_normal(normalized(path)),
{
    lemma_kept_len(path);
}

/// A path that does not end in a separator is its own key.
pub proof fn lemma_normal_is_fixed(path: Seq<char>)
    requires
        is_normal(path),
    ensures
        normalized(path) == path,
{
    assert(path.take(path.len() as int) =~= path);
}

/// Taking the key of a key changes nothing.
pub proof fn lemma_normalized_idempotent(path: Seq<char>)
    ensures
        normalized(normalized(path)) == normalized(path),
{
    lemma_normalized_is_normal(path);
    lemma_normal_is_fixed(normalized(path));
}

/// A path and the same path with one more trailing separator have the same
/// key: differently written paths to one directory meet in one cache entry.
pub proof fn lemma_trailing_separator_ignored(path: Seq<char>)
    ensures
        normalized(path.push(SEPARATOR)) == normalized(path),
{
    let longer = path.push(SEPARATOR);
    assert(longer.drop_last() =~= path);
    lemma_kept_len(path);
    assert(longer.take(kept_len(path) as int) =~= path.take(kept_len(path) as int));
}

/// The key of `path`, as an owned string.
pub fn normalize_path(path: &str) -> (key: String)
    ensures
        key@ == normalized(path@),
        is_normal(key@),
{
    let mut end: usize = path.unicode_len();
    proof {
        assert(path@.take(end as int) =~= path@);
    }
    while end > 0 && path.get_char(end - 1) == SEPARATOR
        invariant
            end <= path@.len(),
            kept_len(path@.take(end as int)) == kept_len(path@),
        decreases end,
    {
        proof {
            let current = path@.take(end as int);
            assert(current.last() == path@[end - 1]);
            assert(current.drop_last() =~= path@.take(end - 1));
        }
        end = end - 1;
    }
    proof {
        let current = path@.take(end as int);
        if end > 0 {
            assert(current.last() == path@[end - 1]);
        }
        assert(kept_len(current) == end);
        lemma_normalized_is_normal(path@);
        assert(path@.subrange(0, end as int) =~= path@.take(end as int));
    }
    String::from_str(path.substring_char(0, end))
}

} // verus!
