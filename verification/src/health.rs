//! Liveness and readiness decisions for the health endpoints.
use vstd::prelude::*;

verus! {

/// Per-subsystem probe timeout, in seconds.
pub const PROBE_TIMEOUT_SECS: u64 = 1;

/// What the storage probe observed.
#[derive(Debug, Clone, Copy, PartialEq, Eq)]
pub enum StorageProbe {
    /// No probe key could be allocated.
    KeyUnavailable,
    /// The filesystem backend handed out a key of another backend.
    WrongKeyKind,
    /// The probe write failed or timed out.
    WriteFailed,
    /// The probe write succeeded.
    Written,
}

/// The reason readiness fails, if it does: `db` when the database ping
/// failed (checked first), `disk` for every failure of the storage probe.
pub open spec fn readiness_spec(db_ok: bool, storage: StorageProbe) -> Option<Seq<char>> {
    if !db_ok {
        Some("db"@)
    } else {
        match storage {
            StorageProbe::KeyUnavailable => Some("disk"@),
            StorageProbe::WrongKeyKind => Some("disk"@),
            StorageProbe::WriteFailed => Some("disk"@),
            StorageProbe::Written => None,
        }
    }
}

pub fn check_readiness(db_ok: bool, storage: StorageProbe) -> (r: Result<(), &'static str>)
    ensures
        match readiness_spec(db_ok, storage) {
            Some(reason) => r matches Err(e) && e@ == reason,
            None => r is Ok,
        },
{
    if !db_ok {
        return Err("db");
    }
    match storage {
        StorageProbe::KeyUnavailable => Err("disk"),
        StorageProbe::WrongKeyKind => Err("disk"),
        StorageProbe::WriteFailed => Err("disk"),
        StorageProbe::Written => Ok(()),
    }
}

/// HTTP status of the readiness endpoint: 200 when ready, 503 otherwise.
pub fn readiness_status(ready: bool) -> (r: u16)
    ensures
        r == (if ready {
            200u16
        } else {
            503u16
        }),
{
    if ready {
        200
    } else {
        503
    }
}

} // verus!
