//! The agent's decision: whether the controller's key is already authorized.

use vstd::prelude::*;
use crate::text::lines;
use crate::text::lines_of;
use crate::text::contains_string;

verus! {

/// Whether the key is one of the lines of the authorized keys file; when it
/// is not, the agent appends it to the file.
pub fn key_is_authorized(authorized_keys: &str, key: &String) -> (r: bool)
    ensures
        r == lines_of(authorized_keys@).contains(key@),
{
    let ls = lines(authorized_keys);
    contains_string(&ls, key)
}

} // verus!
