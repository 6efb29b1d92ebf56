//! Shared state of the download worker.

use vstd::prelude::*;
use std::sync::Arc;

verus! {

/// State shared between the download endpoints and the worker.
pub struct DownloadState;

impl DownloadState {
    /// A fresh shared state.
    pub fn new() -> (r: Arc<Self>)
        ensures
            *r == DownloadState,
    {
        Arc::new(DownloadState)
    }
}

} // verus!
