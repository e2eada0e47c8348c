//! What the library asks of a download: where from, as whom, for how long,
//! and which answers count as a success.

use vstd::prelude::*;

verus! {

/// Seconds after which a download is given up.
pub const FETCH_TIMEOUT_SECS: u64 = 30;

/// The name under which the library introduces itself to a server.
pub fn user_agent() -> (r: &'static str)
    ensures
        r@ == "dver/0.1 (dotnet-version-manager)"@,
{
    "dver/0.1 (dotnet-version-manager)"
}

/// Where the index of release channels is published.
pub fn releases_index_url() -> (r: &'static str)
    ensures
        r@ == "https://dotnetcli.blob.core.windows.net/dotnet/release-metadata/releases-index.json"@,
{
    "https://dotnetcli.blob.core.windows.net/dotnet/release-metadata/releases-index.json"
}

/// Why a download counts as failed.
#[derive(Debug, PartialEq, Eq, Clone, Copy)]
pub enum FetchError {
    /// The server answered with this status, which is no success.
    Status(u16),
}

/// Whether an HTTP status is a success: the 2xx range.
pub open spec fn is_success(status: u16) -> bool {
    200 <= status < 300
}

/// Accepts an answer with a success status and rejects any other, with
/// the status as the cause.
pub fn check_status(status: u16) -> (r: Result<(), FetchError>)
    ensures
        r is Ok <==> is_success(status),
        r matches Err(e) ==> e == FetchError::Status(status),
{
    if 200 <= status && status < 300 {
        Ok(())
    } else {
        Err(FetchError::Status(status))
    }
}

} // verus!
