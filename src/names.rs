use vstd::prelude::*;

use crate::error::RefstoreError;

verus! {

/// A character allowed in a reference, bundle or registry name.
pub open spec fn name_char(c: char) -> bool {
    ('a' <= c && c <= 'z') || ('A' <= c && c <= 'Z') || ('0' <= c && c <= '9') || c == '-' || c
        == '_' || c == '.'
}

/// A non-empty name over `[A-Za-z0-9._-]`.
pub open spec fn valid_name(s: Seq<char>) -> bool {
    s.len() > 0 && forall|i: int| 0 <= i < s.len() ==> name_char(#[trigger] s[i])
}

fn is_name_char(c: char) -> (r: bool)
    ensures
        r == name_char(c),
{
    ('a' <= c && c <= 'z') || ('A' <= c && c <= 'Z') || ('0' <= c && c <= '9') || c == '-' || c
        == '_' || c == '.'
}

/// Accepts a name that is non-empty and made of ASCII letters, digits,
/// hyphens, underscores and dots; otherwise reports it as invalid.
pub fn validate_name(name: &str) -> (r: Result<(), RefstoreError>)
    ensures
        r is Ok <==> valid_name(name@),
        r matches Err(e) ==> e matches RefstoreError::InvalidName { name: n, .. } && n@ == name@,
{
    let n = name.unicode_len();
    if n == 0 {
        return Err(
            RefstoreError::InvalidName {
                name: String::from_str(name),
                reason: String::from_str("name cannot be empty"),
            },
        );
    }
    let mut i: usize = 0;
    while i < n
        invariant
            n == name@.len(),
            i <= n,
            forall|j: int| 0 <= j < i ==> name_char(#[trigger] name@[j]),
        decreases n - i,
    {
        if !is_name_char(name.get_char(i)) {
            return Err(
                RefstoreError::InvalidName {
                    name: String::from_str(name),
                    reason: String::from_str(
                        "name must contain only alphanumeric characters, hyphens, underscores, or dots",
                    ),
                },
            );
        }
        i = i + 1;
    }
    Ok(())
}

} // verus!
