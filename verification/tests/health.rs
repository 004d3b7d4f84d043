use openaccounting::health::{check_readiness, readiness_status, StorageProbe};
use openaccounting::health::PROBE_TIMEOUT_SECS;
use std::time::Duration;

#[test]
fn probe_timeout_is_one_second() {
    assert_eq!(Duration::from_secs(PROBE_TIMEOUT_SECS), Duration::from_secs(1));
}

#[test]
fn readiness_reasons() {
    assert_eq!(check_readiness(true, StorageProbe::Written), Ok(()));
    assert_eq!(check_readiness(false, StorageProbe::Written), Err("db"));
    assert_eq!(check_readiness(false, StorageProbe::WriteFailed), Err("db"));
    assert_eq!(check_readiness(true, StorageProbe::WriteFailed), Err("disk"));
    assert_eq!(check_readiness(true, StorageProbe::KeyUnavailable), Err("disk"));
    assert_eq!(check_readiness(true, StorageProbe::WrongKeyKind), Err("disk"));
    assert_eq!(readiness_status(true), 200);
    assert_eq!(readiness_status(false), 503);
}
