//! Parsing the `owner/name` repository path.
//!
//! The path must hold exactly one slash, strictly inside, so that both the
//! owner and the name are non-empty. A malformed path is rejected here,
//! before any network call is made.

use vstd::prelude::*;

use crate::error::InputError;

verus! {

/// Whether `i` is the position of the separator of a well-formed
/// `owner/name` path: the only slash, with characters on both sides.
pub open spec fn slash_splits_at(s: Seq<char>, i: int) -> bool {
    &&& 0 < i < s.len() - 1
    &&& s[i] == '/'
    &&& forall|j: int| 0 <= j < s.len() && j != i ==> s[j] != '/'
}

/// Whether a path has the shape `owner/name` with both parts non-empty.
pub open spec fn valid_repo_path(s: Seq<char>) -> bool {
    exists|i: int| slash_splits_at(s, i)
}

/// Splits a repository path into its owner and name, or rejects it: the
/// result is `Ok` exactly on well-formed paths, and then carries the two
/// parts around the single slash; any other path is the structured input
/// error, reported before any network call.
#[verifier::loop_isolation(false)]
pub fn parse_repo_path(path: &str) -> (r: Result<(String, String), InputError>)
    ensures
        match r {
            Ok(p) => exists|i: int|
                #[trigger] slash_splits_at(path@, i) && p.0@ == path@.take(i) && p.1@ == path@.skip(
                    i + 1,
                ),
            Err(e) => e == InputError::BadRepoPath && !valid_repo_path(path@),
        },
{
    let len = path.unicode_len();
    let mut i: usize = 0;
    let mut slash: Option<usize> = None;
    while i < len
        invariant
            i <= len,
            len == path@.len(),
            match slash {
                Some(k) => k < i && path@[k as int] == '/' && (forall|j: int|
                    0 <= j < i && j != k ==> path@[j] != '/'),
                None => forall|j: int| 0 <= j < i ==> path@[j] != '/',
            },
        decreases len - i,
    {
        let c = path.get_char(i);
        if c == '/' {
            match slash {
                Some(k) => {
                    // A second slash: no position can be the only one.
                    proof {
                        assert forall|m: int| !slash_splits_at(path@, m) by {
                            if 0 <= m < path@.len() {
                                if m == k {
                                    assert(path@[i as int] == '/');
                                } else {
                                    assert(path@[k as int] == '/');
                                }
                            }
                        }
                    }
                    return Err(InputError::BadRepoPath);
                },
                None => {
                    slash = Some(i);
                },
            }
        }
        i = i + 1;
    }
    match slash {
        Some(k) => {
            if k == 0 || k + 1 == len {
                // An empty owner or an empty name.
                proof {
                    assert forall|m: int| !slash_splits_at(path@, m) by {
                        if 0 <= m < path@.len() && m != k {
                            assert(path@[m] != '/');
                        }
                    }
                }
                return Err(InputError::BadRepoPath);
            }
            let owner = path.substring_char(0, k).to_owned();
            let name = path.substring_char(k + 1, len).to_owned();
            proof {
                assert(slash_splits_at(path@, k as int));
                assert(owner@ =~= path@.take(k as int));
                assert(name@ =~= path@.skip(k as int + 1));
            }
            Ok((owner, name))
        },
        None => {
            // No slash at all.
            proof {
                assert forall|m: int| !slash_splits_at(path@, m) by {
                    if 0 <= m < path@.len() {
                        assert(path@[m] != '/');
                    }
                }
            }
            Err(InputError::BadRepoPath)
        },
    }
}

} // verus!
