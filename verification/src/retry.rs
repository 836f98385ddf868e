//! The bounded retry layer of the remote backend.
//!
//! A call is attempted up to `attempts` times; transient failures are
//! retried, a missing object is not (retrying cannot create it). The
//! contracts say exactly when retrying masks a failure: a burst of fewer
//! transient faults than the budget is invisible to the caller, a longer
//! burst surfaces as a transient error.

use crate::connector::Connector;
use crate::errors::IoFailure;
use vstd::prelude::*;

verus! {

/// Reads `key`, retrying transient failures up to `attempts` times in all.
pub fn read_with_retry<C: Connector>(conn: &mut C, key: &[u8], attempts: u64) -> (r: Result<
    Vec<u8>,
    IoFailure,
>)
    requires
        attempts >= 1,
    ensures
        final(conn).objects() == old(conn).objects(),
        old(conn).failures_left() >= attempts ==> (r == Err::<Vec<u8>, IoFailure>(
            IoFailure::Transient,
        ) && final(conn).failures_left() == old(conn).failures_left() - attempts),
        old(conn).failures_left() < attempts ==> (final(conn).failures_left() == 0
            && (old(conn).objects().contains_key(key@) ==> (r matches Ok(v)
            && v@ == old(conn).objects()[key@]))
            && (!old(conn).objects().contains_key(key@)
            ==> r == Err::<Vec<u8>, IoFailure>(IoFailure::NotFound))),
    decreases attempts,
{
    let first = conn.read(key);
    match first {
        Ok(v) => Ok(v),
        Err(IoFailure::NotFound) => Err(IoFailure::NotFound),
        Err(IoFailure::Transient) => {
            if attempts > 1 {
                read_with_retry(conn, key, attempts - 1)
            } else {
                Err(IoFailure::Transient)
            }
        },
    }
}

/// Writes `value` at `key`, retrying transient failures up to `attempts`
/// times in all.
pub fn write_with_retry<C: Connector>(conn: &mut C, key: &[u8], value: &[u8], attempts: u64) -> (r:
    Result<(), IoFailure>)
    requires
        attempts >= 1,
    ensures
        old(conn).failures_left() >= attempts ==> (r == Err::<(), IoFailure>(IoFailure::Transient)
            && final(conn).failures_left() == old(conn).failures_left() - attempts
            && final(conn).objects() == old(conn).objects()),
        old(conn).failures_left() < attempts ==> (r == Ok::<(), IoFailure>(())
            && final(conn).failures_left() == 0
            && final(conn).objects() == old(conn).objects().insert(key@, value@)),
    decreases attempts,
{
    let first = conn.write(key, value);
    match first {
        Ok(u) => Ok(u),
        Err(IoFailure::NotFound) => Err(IoFailure::NotFound),
        Err(IoFailure::Transient) => {
            if attempts > 1 {
                write_with_retry(conn, key, value, attempts - 1)
            } else {
                Err(IoFailure::Transient)
            }
        },
    }
}

} // verus!
