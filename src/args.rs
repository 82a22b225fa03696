//! The settings of the photo server.
use std::path::PathBuf;
use vstd::prelude::*;

verus! {

#[verifier::external_type_specification]
#[verifier::external_body]
pub struct ExPathBuf(PathBuf);

#[verifier::external_type_specification]
#[verifier::external_body]
pub struct ExLevel(tracing::Level);

/// What the server is started with: the most verbose log level to show, the
/// address and port to listen on, and the photo directory (the working
/// directory when absent).
pub struct Args {
    pub log_level: tracing::Level,
    pub address: String,
    pub port: u16,
    pub directory: Option<PathBuf>,
}

} // verus!
