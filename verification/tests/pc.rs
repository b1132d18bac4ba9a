use auto_heater::pc::{is_locked, is_on, Echo, LockStatus, ProbeError};

#[test]
fn reply_means_powered_on() {
    assert_eq!(is_on(Echo::Reply), Ok(true));
}

#[test]
fn silence_means_powered_off() {
    assert_eq!(is_on(Echo::TimedOut), Ok(false));
    assert_eq!(is_on(Echo::Unreachable), Ok(false));
}

#[test]
fn failed_probe_is_an_error() {
    assert_eq!(is_on(Echo::Failed), Err(ProbeError::Transport));
}

#[test]
fn sentinel_body_means_locked() {
    assert_eq!(is_locked(Some(b"1")), LockStatus::Locked);
}

#[test]
fn any_other_body_means_unlocked() {
    assert_eq!(is_locked(Some(b"0")), LockStatus::Unlocked);
    assert_eq!(is_locked(Some(b"")), LockStatus::Unlocked);
    assert_eq!(is_locked(Some(b"11")), LockStatus::Unlocked);
    assert_eq!(is_locked(Some(b"1\n")), LockStatus::Unlocked);
    assert_eq!(is_locked(Some(b" 1")), LockStatus::Unlocked);
    assert_eq!(is_locked(Some(b"2")), LockStatus::Unlocked);
    assert_eq!(is_locked(Some(b"locked")), LockStatus::Unlocked);
}

#[test]
fn no_answer_means_unknown() {
    assert_eq!(is_locked(None), LockStatus::Unknown);
}

#[test]
fn lock_status_from_and_to_bool() {
    assert_eq!(LockStatus::from_locked(true), LockStatus::Locked);
    assert_eq!(LockStatus::from_locked(false), LockStatus::Unlocked);
    assert_eq!(LockStatus::Locked.to_bool(), Some(true));
    assert_eq!(LockStatus::Unlocked.to_bool(), Some(false));
    assert_eq!(LockStatus::Unknown.to_bool(), None);
}

#[test]
fn only_a_known_lock_counts_as_locked() {
    assert!(LockStatus::Locked.is_locked());
    assert!(!LockStatus::Unlocked.is_locked());
    assert!(!LockStatus::Unknown.is_locked());
    assert_eq!(LockStatus::Unknown.to_bool().unwrap_or(false), LockStatus::Unknown.is_locked());
}
