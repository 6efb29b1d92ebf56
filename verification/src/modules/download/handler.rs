//! Queries of the download endpoints.

use vstd::prelude::*;

verus! {

/// Query of the download list: only tasks with this status, when given.
#[derive(Clone, Debug)]
pub struct ListQuery {
    pub status: Option<String>,
}

} // verus!
