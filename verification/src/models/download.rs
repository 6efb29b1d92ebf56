//! Download requests.

use vstd::prelude::*;

verus! {

/// A request to download `url` into the directory `save_path`.
#[derive(Clone, Debug)]
pub struct AddDownloadRequest {
    pub url: String,
    pub save_path: String,
}

} // verus!
