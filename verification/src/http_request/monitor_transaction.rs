//! Where the status of a transaction is asked for.

use vstd::prelude::*;
use vstd::string::StringExecFns;

verus! {

/// The address under which the status of every transaction is found.
pub const MONITOR_URL: &'static str = "https://mock-node-wgqbnxruha-as.a.run.app/check";

/// The address at which the status of `tx_hash` is asked for.
pub open spec fn spec_monitor_url(tx_hash: Seq<char>) -> Seq<char> {
    MONITOR_URL@ + "/"@ + tx_hash
}

/// The address at which the status of `tx_hash` is asked for: the monitor
/// address, a slash, and the hash as it is.
pub fn monitor_url(tx_hash: &str) -> (url: String)
    ensures
        url@ == spec_monitor_url(tx_hash@),
{
    let mut url = String::from_str(MONITOR_URL);
    url.append("/");
    url.append(tx_hash);
    url
}

} // verus!
