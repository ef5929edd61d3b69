//! SQL executors, authentication methods and schema-driven endpoint generation
//! for Waveless: the statements they run and what they make of the results.
use vstd::prelude::*;

pub mod auth;
pub mod databases;
pub mod generator;
pub mod http_execute;
pub mod http_executor;
pub mod pattern;
pub mod request;
pub mod text;

verus! {

/// The loaded database backends are not exactly one.
#[derive(Debug)]
pub struct BackendCountError {
    /// How many backends are loaded.
    pub loaded: usize,
    /// The executor or method that needs one.
    pub origin: String,
}

/// Checks that exactly one database backend is loaded for `origin`: executors
/// and methods that name no database need exactly one.
pub fn assert_db_backends_length(loaded: usize, origin: String) -> (r: Result<(), BackendCountError>)
    ensures
        r is Ok <==> loaded == 1,
        r matches Err(e) ==> e.loaded == loaded && e.origin@ == origin@,
{
    if loaded != 1 {
        Err(BackendCountError { loaded, origin })
    } else {
        Ok(())
    }
}

/// Keeps the crate's registered types linked into the host binary; call it once
/// at the start of `main`. It does nothing else.
pub fn register() {
}

} // verus!
