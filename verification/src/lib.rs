pub mod error;
pub mod json;
pub mod models;
pub mod print_job;
pub mod printer_storage;
pub mod printer_sync;
pub mod push;
pub mod seqs;

use vstd::prelude::*;

verus! {

/// True exactly when an HTTP status code reports success.
pub open spec fn spec_status_is_success(status: u16) -> bool {
    200 <= status < 300
}

/// Remote calls succeed on any status in the 2xx range.
pub fn status_is_success(status: u16) -> (r: bool)
    ensures
        r == spec_status_is_success(status),
{
    200 <= status && status < 300
}

} // verus!
