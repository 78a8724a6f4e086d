//! The filter of the error reports' backtraces.

use vstd::prelude::*;
use crate::text::starts_with;

verus! {

/// Whether a backtrace frame stays in an error report: frames without a name
/// are left out, and so are frames of `tokio`, `tracing`, `color_eyre` and
/// `core`.
pub open spec fn keeps_frame(name: Option<Seq<char>>) -> bool {
    match name {
        None => false,
        Some(n) => !("tokio::"@.is_prefix_of(n) || "tracing::"@.is_prefix_of(n) || "color_eyre::"@.is_prefix_of(n)
            || "<core::"@.is_prefix_of(n)),
    }
}

/// Whether a backtrace frame with the given name stays in an error report.
pub fn keep_frame(name: Option<&str>) -> (r: bool)
    ensures
        r == keeps_frame(
            match name {
                Some(n) => Some(n@),
                None => None,
            },
        ),
{
    match name {
        None => false,
        Some(n) => !(starts_with(n, "tokio::") || starts_with(n, "tracing::") || starts_with(n, "color_eyre::")
            || starts_with(n, "<core::")),
    }
}

} // verus!
