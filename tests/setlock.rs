use lum::logging::{setup_logger, LogLevel};
use lum::setlock::{SetLock, SetLockError};

#[test]
fn set_lock_is_written_once() {
    let mut cell: SetLock<u32> = SetLock::new();
    assert!(!cell.is_set());
    assert_eq!(cell.get(), None);
    assert_eq!(cell.set(1), Ok(()));
    assert_eq!(cell.set(2), Err(SetLockError::AlreadySet));
    assert_eq!(cell.get(), Some(&1));
    assert!(cell.is_set());
}

#[test]
fn logger_level_follows_build() {
    assert_eq!(setup_logger(true), LogLevel::Debug);
    assert_eq!(log::max_level(), log::LevelFilter::Debug);
    assert_eq!(setup_logger(false), LogLevel::Info);
    assert_eq!(log::max_level(), log::LevelFilter::Info);
}
