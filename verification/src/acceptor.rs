//! The connection acceptor's one decision: where to listen.

use vstd::prelude::*;
use vstd::string::StringExecFns;

verus! {

/// The address the acceptor listens on where none is configured.
pub open spec fn default_address() -> Seq<char> {
    "127.0.0.1:2100"@
}

/// The address to listen on: the configured one, or the default where none
/// is set.
pub fn bind_address(configured: Option<String>) -> (address: String)
    ensures
        address@ == match configured {
            Some(chosen) => chosen@,
            None => default_address(),
        },
{
    match configured {
        Some(chosen) => chosen,
        None => String::from_str("127.0.0.1:2100"),
    }
}

} // verus!
