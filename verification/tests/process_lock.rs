use agentype_runtime::process_lock::{
    fnv64, store_identity, HeldIdentities, LockStep, ProcessLockError, RuntimeProcessGuard,
    RuntimeProcessLock, SqliteRuntimeConfig, StoreIdentification, StoreIdentity, StoreLockReply,
};
use agentype_runtime::time::Seconds;

fn seconds(value: f64) -> Seconds {
    Seconds { bits: value.to_bits() }
}

fn config(path: &str) -> Result<SqliteRuntimeConfig, ProcessLockError> {
    SqliteRuntimeConfig::new(path.to_string(), seconds(10.0), 16_384)
}

/// A file as the operating system knows it, with the locks that other processes have.
struct File {
    id: &'static str,
    canonical: &'static str,
    adjacent_locked: bool,
    store_locked: bool,
}

fn file(id: &'static str, canonical: &'static str) -> File {
    File { id, canonical, adjacent_locked: false, store_locked: false }
}

fn acquire(
    config: &SqliteRuntimeConfig,
    file: &File,
    held: &mut HeldIdentities,
) -> Result<RuntimeProcessLock, ProcessLockError> {
    let mut step = RuntimeProcessGuard::acquire(config);
    loop {
        step = match step {
            LockStep::CreateDirectory(call) => call.resume(Ok(())),
            LockStep::OpenStore(call) => call.resume(Ok(())),
            LockStep::Identify(call) => {
                call.resume(Ok(file.canonical.to_string()), Ok(file.id.to_string()), held)
            }
            LockStep::OpenLockFile(call) => call.resume(Ok(()), held),
            LockStep::LockLockFile(call) => call.resume(Ok(!file.adjacent_locked), held),
            LockStep::LockStore(call) => {
                let reply = if file.store_locked {
                    StoreLockReply::HeldElsewhere
                } else {
                    StoreLockReply::Locked
                };
                call.resume(Ok(reply), held)
            }
            LockStep::Finished(result) => return result,
        }
    }
}

fn holds(held: &HeldIdentities, file: &File) -> bool {
    held.contains(&file.id.to_string()) && held.contains(&file.canonical.to_string())
}

#[test]
fn first_lock_succeeds_and_is_not_clone() {
    let config = config("/var/scheduler.sqlite").unwrap();
    let store = file("inode-7", "/var/scheduler.sqlite");
    let mut held = HeldIdentities::new();
    let guard = RuntimeProcessGuard { lock: acquire(&config, &store, &mut held).unwrap() };
    assert_eq!(guard.lock().identity_debug(), "inode-7");
    assert_eq!(guard.lock().store_path(), "/var/scheduler.sqlite");
    guard.lock.release(&mut held);
    assert!(acquire(&config, &store, &mut held).is_ok());
}

#[test]
fn same_process_second_acquire_is_already_running() {
    let config = config("/var/scheduler.sqlite").unwrap();
    let store = file("inode-7", "/var/scheduler.sqlite");
    let mut held = HeldIdentities::new();
    let _lock = acquire(&config, &store, &mut held).unwrap();
    assert_eq!(acquire(&config, &store, &mut held), Err(ProcessLockError::AlreadyRunning));
    assert!(holds(&held, &store), "failed second claim must not drop the holder's reservation");
}

#[test]
fn failed_second_claim_does_not_drop_first_reservation() {
    let config = config("/var/scheduler.sqlite").unwrap();
    let store = file("inode-7", "/var/scheduler.sqlite");
    let mut held = HeldIdentities::new();
    let lock = acquire(&config, &store, &mut held).unwrap();
    assert!(holds(&held, &store));
    assert_eq!(acquire(&config, &store, &mut held), Err(ProcessLockError::AlreadyRunning));
    assert!(holds(&held, &store));
    lock.release(&mut held);
    assert!(!held.contains(&store.id.to_string()));
    assert!(!held.contains(&store.canonical.to_string()));
}

#[test]
fn memory_path_fails_closed() {
    match config(":memory:") {
        Err(ProcessLockError::IdentityUnresolvable(m)) => {
            assert_eq!(m, "in-memory sqlite is not a production scheduler store");
        }
        other => panic!("expected IdentityUnresolvable, got {other:?}"),
    }
}

#[test]
fn store_configuration_defects_are_named() {
    let defect = |path: &str, lease: f64, bytes: usize| {
        SqliteRuntimeConfig::new(path.to_string(), seconds(lease), bytes).unwrap_err().message()
    };
    assert_eq!(
        defect("", 10.0, 1),
        "scheduler store identity unresolvable: scheduler store path is empty"
    );
    assert_eq!(
        defect("s", f64::INFINITY, 1),
        "scheduler store identity unresolvable: lease_seconds must be finite and positive"
    );
    assert_eq!(
        defect("s", 10.0, 0),
        "scheduler store identity unresolvable: continuity_max_bytes must be positive"
    );
    let sound = config("s").unwrap();
    assert_eq!(sound.path(), "s");
    assert_eq!(sound.lease_seconds(), seconds(10.0));
    assert_eq!(sound.continuity_max_bytes(), 16_384);
}

#[test]
fn hardlink_cannot_create_independent_ownership() {
    let store = file("inode-7", "/var/scheduler.sqlite");
    let alias = file("inode-7", "/var/scheduler.hardlink.sqlite");
    let mut held = HeldIdentities::new();
    let lock = acquire(&config(store.canonical).unwrap(), &store, &mut held).unwrap();
    assert_eq!(
        acquire(&config(alias.canonical).unwrap(), &alias, &mut held),
        Err(ProcessLockError::AlreadyRunning)
    );
    assert!(!held.contains(&alias.canonical.to_string()));
    lock.release(&mut held);
    assert!(acquire(&config(alias.canonical).unwrap(), &alias, &mut held).is_ok());
}

#[test]
fn second_os_process_fails_before_recovery() {
    let config = config("/var/scheduler.sqlite").unwrap();
    let mut store = file("inode-7", "/var/scheduler.sqlite");
    store.adjacent_locked = true;
    store.store_locked = true;
    let mut held = HeldIdentities::new();
    assert_eq!(acquire(&config, &store, &mut held), Err(ProcessLockError::AlreadyRunning));
    assert!(!holds(&held, &store));
    store.adjacent_locked = false;
    store.store_locked = false;
    assert!(acquire(&config, &store, &mut held).is_ok(), "lock released after the other exits");
}

#[test]
fn cross_directory_rename_cannot_split_store_ownership() {
    let mut moved = file("inode-7", "/b/scheduler.sqlite");
    moved.store_locked = true;
    let config = config("/b/scheduler.sqlite").unwrap();
    let mut held = HeldIdentities::new();
    assert_eq!(acquire(&config, &moved, &mut held), Err(ProcessLockError::AlreadyRunning));
    assert!(!held.contains(&moved.id.to_string()));
    moved.store_locked = false;
    assert!(acquire(&config, &moved, &mut held).is_ok());
}

#[test]
fn hashes_are_fnv_1a() {
    assert_eq!(fnv64(""), 0xcbf29ce484222325);
    assert_eq!(fnv64("a"), 0xaf63dc4c8601ec8c);
    assert_eq!(fnv64("foobar"), 0x85944171f73967e8);
    let mut expected: u64 = 0xcbf29ce484222325;
    for byte in "\u{e9}\u{1f600}".as_bytes() {
        expected ^= *byte as u64;
        expected = expected.wrapping_mul(0x100000001b3);
    }
    assert_eq!(fnv64("\u{e9}\u{1f600}"), expected);
}

#[test]
fn the_lock_file_is_named_by_the_file_identity() {
    let identity = StoreIdentity {
        file_id: "foobar".to_string(),
        canonical: "/var/lib/scheduler.sqlite".to_string(),
    };
    let lock = identity.adjacent_lock_path().unwrap();
    assert_eq!(lock.directory, "/var/lib");
    assert_eq!(lock.file_name, ".agentype-runtime-lock-9625390261332436968");
    assert_eq!(
        identity.lock_path_in(None).unwrap_err().message(),
        "scheduler store identity unresolvable: canonical store path has no parent directory"
    );
    let rootless = StoreIdentity { file_id: "f".to_string(), canonical: String::new() };
    assert!(rootless.adjacent_lock_path().is_err());
}

#[test]
fn the_directory_of_the_store_is_created_first() {
    match RuntimeProcessLock::acquire(&config("/var/lib/scheduler.sqlite").unwrap()) {
        LockStep::CreateDirectory(call) => {
            assert_eq!(call.directory, "/var/lib");
            assert_eq!(
                call.resume(Err("denied".to_string())),
                LockStep::Finished(Err(ProcessLockError::Io("denied".to_string())))
            );
        }
        other => panic!("expected a directory, got {other:?}"),
    }
    match RuntimeProcessLock::acquire(&config("scheduler.sqlite").unwrap()) {
        LockStep::OpenStore(call) => assert_eq!(call.store_path, "scheduler.sqlite"),
        other => panic!("expected the store, got {other:?}"),
    }
    assert!(matches!(
        RuntimeProcessLock::acquire_path("s".to_string(), None),
        LockStep::OpenStore(_)
    ));
}

#[test]
fn a_store_that_cannot_be_identified_is_named() {
    let no_path = store_identity("s", Err("gone".to_string()), Ok("id".to_string()));
    assert_eq!(
        no_path.unwrap_err().message(),
        "scheduler store identity unresolvable: cannot canonicalize s: gone"
    );
    let no_id = store_identity("s", Ok("/s".to_string()), Err("denied".to_string()));
    assert_eq!(
        no_id.unwrap_err().message(),
        "scheduler store identity unresolvable: cannot read file identity for s: denied"
    );
    assert_eq!(
        ProcessLockError::Io("full".to_string()).message(),
        "process lock i/o: full"
    );
    let mut held = HeldIdentities::new();
    let identity = || StoreIdentity { file_id: "f".to_string(), canonical: "/s".to_string() };
    let call = || StoreIdentification { store_path: "s".to_string() };
    assert!(matches!(
        call().identified(identity(), None, &mut held),
        LockStep::Finished(Err(ProcessLockError::IdentityUnresolvable(_)))
    ));
    assert!(!held.contains(&"f".to_string()));
    match call().identified(identity(), Some("/".to_string()), &mut held) {
        LockStep::OpenLockFile(call) => {
            assert!(held.contains(&"f".to_string()));
            assert!(matches!(
                call.resume(Err("denied".to_string()), &mut held),
                LockStep::Finished(Err(ProcessLockError::Io(_)))
            ));
            assert!(!held.contains(&"f".to_string()));
        }
        other => panic!("expected the lock file, got {other:?}"),
    }
}

#[test]
fn clean_shutdown_releases_lock_for_next_process() {
    let config = config("/var/scheduler.sqlite").unwrap();
    let mut store = file("inode-7", "/var/scheduler.sqlite");
    let mut held = HeldIdentities::new();
    let guard = RuntimeProcessGuard { lock: acquire(&config, &store, &mut held).unwrap() };
    store.adjacent_locked = true;
    store.store_locked = true;
    let mut next_process = HeldIdentities::new();
    assert_eq!(
        acquire(&config, &store, &mut next_process),
        Err(ProcessLockError::AlreadyRunning)
    );
    guard.lock.release(&mut held);
    store.adjacent_locked = false;
    store.store_locked = false;
    let next = acquire(&config, &store, &mut next_process).unwrap();
    assert!(holds(&next_process, &store));
    assert!(!holds(&held, &store));
    next.release(&mut next_process);
    assert!(!holds(&next_process, &store));
}

/// The lock file of a store, as an acquisition in this process names it.
fn lock_file(config: &SqliteRuntimeConfig, file: &File) -> (String, String) {
    let mut held = HeldIdentities::new();
    let mut step = RuntimeProcessGuard::acquire(config);
    loop {
        step = match step {
            LockStep::CreateDirectory(call) => call.resume(Ok(())),
            LockStep::OpenStore(call) => call.resume(Ok(())),
            LockStep::Identify(call) => {
                call.resume(Ok(file.canonical.to_string()), Ok(file.id.to_string()), &mut held)
            }
            LockStep::OpenLockFile(call) => return (call.lock.directory, call.lock.file_name),
            other => panic!("expected the lock file, got {other:?}"),
        }
    }
}

#[test]
fn different_process_temp_dir_cannot_split_store_ownership() {
    let mut store = file("inode-7", "/tmp/scheduler.sqlite");
    let config = config("/tmp/scheduler.sqlite").unwrap();
    let mut held = HeldIdentities::new();
    let _guard = acquire(&config, &store, &mut held).unwrap();
    let here = lock_file(&config, &store);
    assert_eq!(here.0, "/tmp");
    assert_eq!(lock_file(&config, &store), here, "nothing but the store decides where it is");
    store.adjacent_locked = true;
    store.store_locked = true;
    let mut other_process = HeldIdentities::new();
    assert_eq!(
        acquire(&config, &store, &mut other_process),
        Err(ProcessLockError::AlreadyRunning)
    );
    assert!(!holds(&other_process, &store));
}

#[test]
fn a_platform_without_store_locks_rests_on_the_lock_file() {
    let config = config("/var/scheduler.sqlite").unwrap();
    let mut held = HeldIdentities::new();
    let mut step = RuntimeProcessGuard::acquire(&config);
    loop {
        step = match step {
            LockStep::CreateDirectory(call) => call.resume(Ok(())),
            LockStep::OpenStore(call) => call.resume(Ok(())),
            LockStep::Identify(call) => {
                call.resume(Ok("/var/s".to_string()), Ok("id".to_string()), &mut held)
            }
            LockStep::OpenLockFile(call) => call.resume(Ok(()), &mut held),
            LockStep::LockLockFile(call) => call.resume(Ok(true), &mut held),
            LockStep::LockStore(call) => call.resume(Ok(StoreLockReply::NotOffered), &mut held),
            LockStep::Finished(result) => {
                assert_eq!(result.unwrap().identity_debug(), "id");
                assert!(held.contains(&"id".to_string()));
                return;
            }
        }
    }
}

#[test]
fn parents_are_those_of_plain_paths() {
    let directory = |canonical: &str| {
        StoreIdentity { file_id: "f".to_string(), canonical: canonical.to_string() }
            .adjacent_lock_path()
            .map(|lock| lock.directory)
    };
    assert_eq!(directory("/var/lib/s.sqlite"), Ok("/var/lib".to_string()));
    assert_eq!(directory("/s.sqlite"), Ok("/".to_string()));
    assert_eq!(directory("s.sqlite"), Ok(String::new()));
    assert_eq!(directory("a//b/./c/.."), Ok("a//b/./c".to_string()));
    assert!(directory("/").is_err());
    assert!(directory("").is_err());
    assert_eq!(directory("/data/a:b.sqlite"), Ok("/data".to_string()));
    assert_eq!(directory("a\\b/s.sqlite"), Ok("a\\b".to_string()));
    for (path, parent) in [
        ("C:\\s.sqlite", "C:\\"),
        ("C:\\data\\s.sqlite", "C:\\data"),
        ("\\\\?\\C:\\data\\s.sqlite", "\\\\?\\C:\\data"),
    ] {
        let found = directory(path).unwrap();
        assert!(found == parent || found.is_empty(), "{path}: {found}");
        assert!(config(path).is_ok());
    }
    assert!(config("/:memory:").is_ok());
    assert!(config("./:memory:").is_ok());
    assert!(config(":memory:x").is_ok());
    assert!(config("memory").is_ok());
    assert!(config(":memory:/").is_err());
    assert!(config(":memory://").is_err());
    match RuntimeProcessLock::acquire(&config("/").unwrap()) {
        LockStep::OpenStore(call) => assert_eq!(call.store_path, "/"),
        other => panic!("expected the store, got {other:?}"),
    }
    match RuntimeProcessLock::acquire(&config("/s.sqlite").unwrap()) {
        LockStep::CreateDirectory(call) => assert_eq!(call.directory, "/"),
        other => panic!("expected the directory, got {other:?}"),
    }
}

#[test]
fn a_moved_store_stays_with_its_owner() {
    let mut held = HeldIdentities::new();
    let source = file("inode-7", "/a/scheduler.sqlite");
    let owner = acquire(&config(source.canonical).unwrap(), &source, &mut held).unwrap();
    let mut other_process = HeldIdentities::new();
    let mut moved = file("inode-7", "/b/scheduler.sqlite");
    moved.store_locked = true;
    let target = config(moved.canonical).unwrap();
    assert_ne!(lock_file(&target, &moved).0, "/a");
    assert_eq!(
        acquire(&target, &moved, &mut other_process),
        Err(ProcessLockError::AlreadyRunning)
    );
    owner.release(&mut held);
    moved.store_locked = false;
    assert!(acquire(&target, &moved, &mut other_process).is_ok());
}
