//! What the host takes from the operating system: the time and fresh keys.

use crate::text::cat2;
use vstd::prelude::*;
use vstd::string::*;

verus! {

/// `SystemTime::duration_since` of the present and the epoch, in whole seconds; nothing
/// where the clock stands before the epoch. Nothing is known of the value.
#[verifier::external_body]
fn since_epoch() -> (r: Option<u64>) {
    std::time::SystemTime::now().duration_since(std::time::UNIX_EPOCH).map(|d| d.as_secs()).ok()
}

/// A reading of the clock as a time stamp: 0 where the clock stands before the epoch.
pub open spec fn stamp(since: Option<u64>) -> u64 {
    match since {
        Some(s) => s,
        None => 0,
    }
}

/// A reading of the clock as a time stamp.
pub fn ts_of(since: Option<u64>) -> (r: u64)
    ensures
        r == stamp(since),
{
    match since {
        Some(s) => s,
        None => 0,
    }
}

/// The time in seconds since the epoch.
pub fn now_ts() -> (r: u64)
    ensures
        exists|since: Option<u64>| r == stamp(since),
{
    ts_of(since_epoch())
}

/// `getrandom::fill` on sixteen bytes: fresh bytes of the operating system's random
/// source, or what it says where it has none. Nothing is known of their values.
#[verifier::external_body]
fn random_key() -> (r: Result<[u8; 16], String>) {
    let mut key = [0u8; 16];
    getrandom::fill(&mut key).map(|_| key).map_err(|e| e.to_string())
}

/// A fresh AES-128 node key. The host is the only source of keys: the generators of the
/// devices are deterministic. Where there is none, the error names the cause.
pub fn mint_key() -> (r: Result<[u8; 16], String>)
    ensures
        r matches Err(e) ==> exists|cause: Seq<char>|
            e@ == "no entropy source for the node key"@ + #[trigger] (": "@ + cause),
{
    match random_key() {
        Ok(key) => Ok(key),
        Err(cause) => {
            let tail = cat2(": ", cause.as_str());
            assert(tail@ == ": "@ + cause@);
            Err(cat2("no entropy source for the node key", tail.as_str()))
        },
    }
}

} // verus!
