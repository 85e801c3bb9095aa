//! The progress reports the launcher shows while it works.

use vstd::prelude::*;

verus! {

/// One progress report: a status line and `val` out of `max_val`.
pub struct ProgressPayload {
    pub status: String,
    pub val: u64,
    pub max_val: u64,
}

impl View for ProgressPayload {
    type V = (Seq<char>, u64, u64);

    open spec fn view(&self) -> (Seq<char>, u64, u64) {
        (self.status@, self.val, self.max_val)
    }
}

/// The views of a sequence of progress reports.
pub open spec fn progress_view(v: Seq<ProgressPayload>) -> Seq<(Seq<char>, u64, u64)> {
    v.map_values(|p: ProgressPayload| p@)
}

/// A progress report.
pub fn progress(status: &str, val: u64, max_val: u64) -> (r: ProgressPayload)
    ensures
        r@ == (status@, val, max_val),
{
    ProgressPayload { status: status.to_owned(), val, max_val }
}

} // verus!
