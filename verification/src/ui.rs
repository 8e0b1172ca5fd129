//! What the progress display is told.

use vstd::prelude::*;

verus! {

/// Configuration for a progress bar.
#[derive(Debug, Clone, Copy)]
pub struct ProgressConfig<'a> {
    /// Emoji to display in the progress bar.
    pub emoji: &'a str,
    /// Message to display in a running progress bar.
    pub msg: &'a str,
    /// Message to display in a progress bar when it is done.
    pub done_msg: &'a str,
}

/// How progress is shown.
#[derive(Debug, Clone, Copy, PartialEq, Eq, Structural)]
pub enum ProgressKind {
    /// A bar that fills up over `len` items.
    Bar { len: u64 },
    /// A spinner, for an unknown number of items.
    Spinner,
}

/// Choose between a progress bar and a spinner from a size hint: a bar where
/// the hint has an upper bound above zero, a spinner otherwise.
pub fn progress_for_size_hint(size_hint: (usize, Option<usize>)) -> (kind: ProgressKind)
    ensures
        kind == match size_hint.1 {
            Some(len) => if len > 0 {
                ProgressKind::Bar { len: len as u64 }
            } else {
                ProgressKind::Spinner
            },
            None => ProgressKind::Spinner,
        },
{
    match size_hint.1 {
        Some(len) => if len > 0 {
            ProgressKind::Bar { len: len as u64 }
        } else {
            ProgressKind::Spinner
        },
        None => ProgressKind::Spinner,
    }
}

} // verus!
