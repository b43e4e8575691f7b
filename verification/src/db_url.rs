//! Connection-string construction for a file-backed deployment of the store.

use vstd::prelude::*;
use vstd::string::StringExecFns;

verus! {

/// The connection URL for a store persisted at `path`: the path under the
/// `sqlite:` scheme.
pub fn db_url(path: &str) -> (r: String)
    ensures
        r@ == "sqlite:"@ + path@,
{
    String::from_str("sqlite:").concat(path)
}

} // verus!
