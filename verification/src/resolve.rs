//! The diff target resolver: classifies a user-supplied operand into a
//! recipe describing how to obtain an item collection from it.
//!
//! Classification order in smart mode: an operand naming an existing file is
//! read as a file; otherwise an operand of the published-specifier shape
//! `name@version` or `@version` (the latter borrowing the package's own
//! name) denotes a published version; everything else is treated as a
//! version-control reference.

use vstd::prelude::*;

verus! {

/// How to obtain one item collection: read a file, check out a
/// version-control reference, or fetch a published version.
#[derive(Debug, Clone, PartialEq, Eq)]
pub enum CheckoutRecipe {
    FromFile(String),
    FromReference(String),
    FromPublished(String, String),
}

/// Why an operand could not be classified.
#[derive(Debug, Clone, Copy, PartialEq, Eq, Structural)]
pub enum ResolveError {
    /// A bare `@version` specifier was given but no package name is known
    /// to substitute for the missing name.
    MissingPackageName,
}

/// `k` is the position of the only `@` in `s`.
pub open spec fn at_split(s: Seq<char>, k: int) -> bool {
    &&& 0 <= k < s.len()
    &&& s[k] == '@'
    &&& forall|j: int| 0 <= j < s.len() && j != k ==> s[j] != '@'
}

/// Whether `s` has the published-specifier shape: a single `@` followed by
/// a non-empty version.
pub open spec fn is_published_shape(s: Seq<char>) -> bool {
    exists|k: int| at_split(s, k) && k < s.len() - 1
}

/// The name part of a published specifier: everything before the `@`.
/// Empty for a bare `@version` specifier.
pub open spec fn published_name(s: Seq<char>) -> Seq<char> {
    s.take(choose|k: int| at_split(s, k))
}

/// The version part of a published specifier: everything after the `@`.
pub open spec fn published_version(s: Seq<char>) -> Seq<char> {
    s.skip((choose|k: int| at_split(s, k)) + 1)
}

/// Splits an operand of the published-specifier shape into its name and
/// version parts; returns `None` exactly when the operand does not have
/// that shape.
pub fn split_published(operand: &str) -> (r: Option<(String, String)>)
    ensures
        r is Some <==> is_published_shape(operand@),
        match r {
            Some((name, version)) => name@ == published_name(operand@) && version@
                == published_version(operand@) && version@.len() > 0,
            None => true,
        },
{
    let len: usize = operand.unicode_len();
    let mut i: usize = 0;
    let mut first: usize = 0;
    let mut count: usize = 0;
    while i < len
        invariant
            i <= len,
            len == operand@.len(),
            count <= 1,
            count == 0 ==> forall|j: int| 0 <= j < i ==> operand@[j] != '@',
            count == 1 ==> first < i && operand@[first as int] == '@' && forall|j: int|
                0 <= j < i && j != first ==> operand@[j] != '@',
        decreases len - i,
    {
        let c = operand.get_char(i);
        if c == '@' {
            if count == 0 {
                first = i;
                count = 1;
            } else {
                // A second separator: the operand is no published specifier.
                proof {
                    assert forall|k: int| !(at_split(operand@, k) && k < operand@.len() - 1) by {
                        if at_split(operand@, k) {
                            if k != first {
                                assert(operand@[first as int] != '@');
                            } else {
                                assert(operand@[i as int] != '@');
                            }
                        }
                    }
                }
                return None;
            }
        }
        i = i + 1;
    }
    if count == 0 {
        proof {
            assert forall|k: int| !(at_split(operand@, k) && k < operand@.len() - 1) by {
                if at_split(operand@, k) {
                    assert(operand@[k] != '@');
                }
            }
        }
        return None;
    }
    if first + 1 == len {
        // The version part would be empty.
        proof {
            assert forall|k: int| !(at_split(operand@, k) && k < operand@.len() - 1) by {
                if at_split(operand@, k) && k < operand@.len() - 1 {
                    if k != first {
                        assert(operand@[first as int] != '@');
                    }
                }
            }
        }
        return None;
    }
    proof {
        assert(at_split(operand@, first as int));
        let k0 = choose|k: int| at_split(operand@, k);
        if k0 != first {
            assert(operand@[k0] != '@');
        }
        assert(k0 == first);
    }
    let name = operand.substring_char(0, first).to_owned();
    let version = operand.substring_char(first + 1, len).to_owned();
    Some((name, version))
}

/// Classifies one operand into a recipe. `is_existing_file` reports whether
/// the operand names an existing filesystem path; `package_name` supplies
/// the package's own name for bare `@version` specifiers.
pub fn classify_operand(operand: &str, is_existing_file: bool, package_name: Option<&str>) -> (r:
    Result<CheckoutRecipe, ResolveError>)
    ensures
        is_existing_file ==> (match r {
            Ok(CheckoutRecipe::FromFile(p)) => p@ == operand@,
            _ => false,
        }),
        !is_existing_file && is_published_shape(operand@) && published_name(operand@).len() > 0
            ==> (match r {
            Ok(CheckoutRecipe::FromPublished(n, v)) => n@ == published_name(operand@) && v@
                == published_version(operand@),
            _ => false,
        }),
        !is_existing_file && is_published_shape(operand@) && published_name(operand@).len() == 0
            ==> (match (r, package_name) {
            (Ok(CheckoutRecipe::FromPublished(n, v)), Some(p)) => n@ == p@ && v@
                == published_version(operand@),
            (Err(ResolveError::MissingPackageName), None) => true,
            _ => false,
        }),
        !is_existing_file && !is_published_shape(operand@) ==> (match r {
            Ok(CheckoutRecipe::FromReference(q)) => q@ == operand@,
            _ => false,
        }),
{
    if is_existing_file {
        return Ok(CheckoutRecipe::FromFile(operand.to_owned()));
    }
    match split_published(operand) {
        Some((name, version)) => {
            if name.as_str().unicode_len() > 0 {
                Ok(CheckoutRecipe::FromPublished(name, version))
            } else {
                match package_name {
                    Some(p) => Ok(CheckoutRecipe::FromPublished(p.to_owned(), version)),
                    None => Err(ResolveError::MissingPackageName),
                }
            }
        },
        None => Ok(CheckoutRecipe::FromReference(operand.to_owned())),
    }
}

} // verus!
