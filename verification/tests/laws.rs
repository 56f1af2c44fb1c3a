//! Scenario tests for the coordination, exclusion, migration, secret and
//! suggestion guarantees the library proves in general.
use borgtui::coordination::{
    run_fan_in, CheckAggregate, CompletionCounter, RepositoryLock, TaskOutcome,
};
use borgtui::finder::DirectoryFinder;
use borgtui::profiles::{
    BorgError, BorgV1OptionsBuilder, Encryption, Passphrase, Profile, Repository,
    RepositoryOptions, RusticOptions,
};
use borgtui::secrets::{store_passphrase, MemorySecretStore, SecretStore};

fn borg_repo(path: &str, disabled: bool) -> Repository {
    let options = RepositoryOptions::BorgV1(BorgV1OptionsBuilder::new().build());
    let mut repo = Repository::new(path.to_string(), Encryption::NoEncryption, options);
    repo.disabled = disabled;
    repo
}

// Mutual exclusion: the lock never admits a second holder.
#[test]
fn lock_mutual_exclusion() {
    let mut lock = RepositoryLock::new();
    assert!(!lock.is_held());
    assert!(lock.try_acquire());
    assert!(lock.is_held());
    // a second acquisition attempt fails while the first holder is inside
    assert!(!lock.try_acquire());
    assert!(!lock.try_acquire());
    lock.release();
    assert!(!lock.is_held());
    assert!(lock.try_acquire());
}

// Fan-in completeness: the signal reaches exactly N, never more.
#[test]
fn fan_in_reaches_exactly_n() {
    let mut counter = CompletionCounter::new(3);
    assert!(!counter.is_complete());
    counter.signal();
    counter.signal();
    assert!(!counter.is_complete());
    counter.signal();
    assert!(counter.is_complete());
}

#[test]
fn fan_in_counts_failures_and_skips() {
    let outcomes = vec![TaskOutcome::Succeeded, TaskOutcome::Failed, TaskOutcome::Skipped];
    let (counter, aggregate) = run_fan_in(&outcomes);
    assert!(counter.is_complete());
    assert!(!aggregate.is_healthy());
}

// Aggregate check: results [true, false, true] (one skipped counts as
// true) yield overall false.
#[test]
fn aggregate_check_is_the_and_of_outcomes() {
    let outcomes = vec![TaskOutcome::Succeeded, TaskOutcome::Failed, TaskOutcome::Succeeded];
    let (counter, aggregate) = run_fan_in(&outcomes);
    assert!(counter.is_complete());
    assert!(!aggregate.is_healthy());

    let all_good = vec![TaskOutcome::Succeeded, TaskOutcome::Skipped, TaskOutcome::Succeeded];
    let (_, aggregate) = run_fan_in(&all_good);
    assert!(aggregate.is_healthy());
}

#[test]
fn aggregate_never_widens() {
    let mut aggregate = CheckAggregate::new();
    assert!(aggregate.is_healthy());
    aggregate.narrow(false);
    assert!(!aggregate.is_healthy());
    aggregate.narrow(true);
    assert!(!aggregate.is_healthy());
}

// Disabled exclusion: [A(disabled=false), B(disabled=true)] yields [A].
#[test]
fn disabled_repositories_are_excluded() {
    let mut profile = Profile::blank("p");
    profile.add_repository(borg_repo("A", false));
    profile.add_repository(borg_repo("B", true));
    let active = profile.active_repositories();
    assert_eq!(active.len(), 1);
    assert_eq!(active[0].path, "A");
    assert_eq!(profile.num_active_repositories(), 1);
    assert_eq!(profile.num_repos(), 2);
}

// Config migration equivalence on the pure migration itself.
#[test]
fn v1_migration_keeps_shared_fields() {
    let v1 = borgtui::profiles::RepositoryV1 {
        path: "/repo".to_string(),
        rsh: Some("ssh -i key".to_string()),
        encryption: Encryption::NoEncryption,
        disabled: true,
        kind: borgtui::profiles::RepositoryKind::Borg,
    };
    let migrated = v1.to_latest();
    assert_eq!(migrated.path, "/repo");
    assert!(migrated.disabled);
    assert_eq!(migrated.borg_options().unwrap().rsh, Some("ssh -i key".to_string()));
    assert_eq!(migrated.borg_options().unwrap().remote_path, None);

    let v1_rustic = borgtui::profiles::RepositoryV1 {
        path: "/r2".to_string(),
        rsh: None,
        encryption: Encryption::Keyring,
        disabled: false,
        kind: borgtui::profiles::RepositoryKind::Rustic,
    };
    assert!(v1_rustic.to_latest().rustic_options().is_ok());
}

// Secret round trip: store, then resolve for the same location.
#[test]
fn secret_round_trip() {
    let mut store = MemorySecretStore::new();
    let secret = Passphrase::new("hunter2".to_string());
    store_passphrase(&mut store, "/backup/repo", &secret).unwrap();
    assert_eq!(store.get_secret("/backup/repo"), Some("hunter2".to_string()));

    let repo = Repository::new(
        "/backup/repo".to_string(),
        Encryption::Keyring,
        RepositoryOptions::Rustic(RusticOptions {}),
    );
    let resolved = repo.get_passphrase(&store, None).unwrap().unwrap();
    assert_eq!(resolved.inner(), "hunter2");

    // overwriting replaces the stored value
    let newer = Passphrase::new("correct horse".to_string());
    store_passphrase(&mut store, "/backup/repo", &newer).unwrap();
    assert_eq!(store.get_secret("/backup/repo"), Some("correct horse".to_string()));
}

#[test]
fn missing_keyring_entry_fails_resolution() {
    let store = MemorySecretStore::new();
    let repo = Repository::new(
        "/nowhere".to_string(),
        Encryption::Keyring,
        RepositoryOptions::Rustic(RusticOptions {}),
    );
    assert!(matches!(repo.get_passphrase(&store, None), Err(BorgError::KeyringFailure)));
}

// Suggestion ordering: {"/a/b", "/a/c", "/a/bb"}, fragment "/a/b", two
// results: ["/a/b", "/a/bb"], excluding "/a/c".
#[test]
fn suggestion_ordering() {
    let mut finder = DirectoryFinder::new();
    finder.note_directories(&vec![
        "/a/b".to_string(),
        "/a/c".to_string(),
        "/a/bb".to_string(),
    ]);
    let (suggestions, generation) = finder.suggestions("/a/b", 2);
    assert_eq!(suggestions, vec!["/a/b".to_string(), "/a/bb".to_string()]);
    assert_eq!(generation, 1);
}

#[test]
fn suggestions_carry_the_generation() {
    let mut finder = DirectoryFinder::new();
    finder.note_directories(&vec!["/x".to_string()]);
    finder.note_directories(&vec!["/y".to_string()]);
    let (_, generation) = finder.suggestions("/", 10);
    assert_eq!(generation, 2);
}

// Path addition rejects non-canonical input; the canonical equivalent
// succeeds exactly once.
#[test]
fn add_backup_path_rejects_non_canonical() {
    let mut profile = Profile::blank("p");
    let err = profile
        .add_backup_path("./relative".to_string(), "/home/user/relative", true)
        .unwrap_err();
    assert_eq!(err, BorgError::PathNotCanonical);

    let err = profile
        .add_backup_path("/home/user/link".to_string(), "/home/user/real", true)
        .unwrap_err();
    assert_eq!(err, BorgError::PathNotCanonical);

    profile
        .add_backup_path("/home/user/real".to_string(), "/home/user/real", true)
        .unwrap();
    let err = profile
        .add_backup_path("/home/user/real".to_string(), "/home/user/real", true)
        .unwrap_err();
    assert_eq!(err, BorgError::PathAlreadyExists);
    assert_eq!(profile.backup_paths(), &vec!["/home/user/real".to_string()]);
}

#[test]
fn add_backup_path_requires_existence() {
    let mut profile = Profile::blank("p");
    let err = profile
        .add_backup_path("/gone".to_string(), "/gone", false)
        .unwrap_err();
    assert_eq!(err, BorgError::PathDoesNotExist);
    assert!(profile.backup_paths().is_empty());
}
