//! Errors the server reports to its clients.

use vstd::prelude::*;

verus! {

/// An error answered to a request, with its message.
#[derive(Debug, Clone)]
pub enum AppError {
    BadRequest(String),
    NotFound(String),
    Conflict(String),
    Internal(String),
}

} // verus!
