use borgtui::secrets::SecretStore;
use borgtui::profiles::{
    default_action_timeout_seconds, default_exclude_caches, default_repository_kind, BorgError,
    BorgV1OptionsBuilder, Encryption, KeyfileWrite, Passphrase, PassphraseSource, Profile,
    ProfileOperation, PruneOptions, Repository, RepositoryKind, RepositoryOptions, ResticOptions,
    RusticOptions,
};
use borgtui::secrets::MemorySecretStore;

fn repo(path: &str) -> Repository {
    Repository::new(
        path.to_string(),
        Encryption::NoEncryption,
        RepositoryOptions::BorgV1(BorgV1OptionsBuilder::new().build()),
    )
}

#[test]
fn defaults() {
    assert_eq!(default_repository_kind(), RepositoryKind::Borg);
    assert_eq!(default_action_timeout_seconds(), 30);
    assert!(default_exclude_caches());
    let prune = PruneOptions::default();
    assert_eq!(
        (prune.keep_daily, prune.keep_weekly, prune.keep_monthly, prune.keep_yearly),
        (64, 128, 64, 32)
    );
}

#[test]
fn prune_counts_must_be_positive() {
    assert!(PruneOptions::new(1, 1, 1, 1).is_ok());
    assert!(PruneOptions::new(0, 1, 1, 1).is_err());
    assert!(PruneOptions::new(2, 1, 0, 1).is_err());
}

#[test]
fn repository_kind_parsing() {
    assert_eq!(RepositoryKind::parse("borg").unwrap(), RepositoryKind::Borg);
    assert_eq!(RepositoryKind::parse("Borg").unwrap(), RepositoryKind::Borg);
    assert_eq!(RepositoryKind::parse("rustic").unwrap(), RepositoryKind::Rustic);
    assert_eq!(RepositoryKind::parse("Restic").unwrap(), RepositoryKind::Restic);
    assert_eq!(
        RepositoryKind::parse("tarsnap").unwrap_err(),
        BorgError::UnknownRepositoryKind
    );
    assert_eq!(RepositoryKind::Rustic.name(), "rustic");
}

#[test]
fn options_are_kind_exclusive() {
    let r = repo("/r");
    assert!(r.borg_options().is_ok());
    assert_eq!(r.rustic_options().unwrap_err(), BorgError::NonRusticOptions);
    assert_eq!(r.restic_options().unwrap_err(), BorgError::NonResticOptions);
    let rr = Repository::new(
        "/r2".to_string(),
        Encryption::NoEncryption,
        RepositoryOptions::Restic(ResticOptions {}),
    );
    assert_eq!(rr.borg_options().unwrap_err(), BorgError::NonBorgOptions);
    assert_eq!(rr.kind(), RepositoryKind::Restic);
}

#[test]
fn builder_sets_fields() {
    let options = BorgV1OptionsBuilder::new()
        .rsh(Some("ssh -p 2222".to_string()))
        .remote_path(Some("/usr/bin/borg1".to_string()))
        .build();
    assert_eq!(options.rsh, Some("ssh -p 2222".to_string()));
    assert_eq!(options.remote_path, Some("/usr/bin/borg1".to_string()));
}

#[test]
fn passphrase_accessors() {
    let p = Passphrase::new("secret".to_string());
    assert_eq!(p.inner(), "secret");
    assert_eq!(p.inner_ref(), "secret");
}

#[test]
fn has_and_finds_repositories() {
    let mut profile = Profile::blank("p");
    profile.add_repository(repo("/a"));
    let mut disabled = repo("/b");
    disabled.disabled = true;
    profile.add_repository(disabled);
    assert!(profile.has_repository("/a"));
    assert!(profile.has_repository("/b"));
    assert!(!profile.has_repository("/c"));

    // mount selectors find only active repositories
    let found = profile.find_repo_from_mount_src("/a::archive-1").unwrap();
    assert_eq!(found.path, "/a");
    assert!(matches!(
        profile.find_repo_from_mount_src("/b"),
        Err(BorgError::RepositoryNotFound)
    ));
}

#[test]
fn apply_operation_adds_and_removes() {
    let mut profile = Profile::blank("p");
    profile
        .apply_operation(ProfileOperation::AddBackupPath("/data".to_string()), "/data", true)
        .unwrap();
    assert_eq!(profile.backup_paths(), &vec!["/data".to_string()]);
    profile
        .apply_operation(ProfileOperation::RemoveBackupPath("/data".to_string()), "/data", true)
        .unwrap();
    assert!(profile.backup_paths().is_empty());
}

#[test]
fn remove_backup_path_removes_only_the_target() {
    let mut profile = Profile::blank("p");
    profile.add_backup_path("/a".to_string(), "/a", true).unwrap();
    profile.add_backup_path("/b".to_string(), "/b", true).unwrap();
    profile.remove_backup_path("/a");
    assert_eq!(profile.backup_paths(), &vec!["/b".to_string()]);
    profile.remove_backup_path("/not-there");
    assert_eq!(profile.backup_paths(), &vec!["/b".to_string()]);
}

#[test]
fn update_repository_password_updates_the_store() {
    let mut profile = Profile::blank("p");
    profile.add_repository(repo("/a"));
    let mut store = MemorySecretStore::new();
    profile
        .update_repository_password(
            &mut store,
            "/a",
            Encryption::Keyring,
            Some(Passphrase::new("pw".to_string())),
        )
        .unwrap();
    assert_eq!(store.get_secret("/a"), Some("pw".to_string()));

    assert_eq!(
        profile
            .update_repository_password(&mut store, "/missing", Encryption::Keyring, None)
            .unwrap_err(),
        BorgError::RepositoryNotFound
    );
    assert_eq!(
        profile
            .update_repository_password(&mut store, "/a", Encryption::Keyring, None)
            .unwrap_err(),
        BorgError::PassphraseMissing
    );
}

#[test]
fn keyfile_resolution_trims_contents() {
    let store = MemorySecretStore::new();
    let r = Repository::new(
        "/r".to_string(),
        Encryption::Keyfile("/keys/repo.key".to_string()),
        RepositoryOptions::Rustic(RusticOptions {}),
    );
    let resolved = r.get_passphrase(&store, Some("  hunter2\n")).unwrap().unwrap();
    assert_eq!(resolved.inner(), "hunter2");
    assert!(matches!(
        r.get_passphrase(&store, None),
        Err(BorgError::KeyfileUnreadable)
    ));
}

#[test]
fn raw_and_none_resolution() {
    let store = MemorySecretStore::new();
    let none = repo("/r");
    assert!(none.get_passphrase(&store, None).unwrap().is_none());
    let raw = Repository::new(
        "/r".to_string(),
        Encryption::Raw(Passphrase::new("pw".to_string())),
        RepositoryOptions::Rustic(RusticOptions {}),
    );
    assert_eq!(raw.get_passphrase(&store, None).unwrap().unwrap().inner(), "pw");
}

#[test]
fn passphrase_source_resolution() {
    let none = PassphraseSource { keyfile: None, raw: false, none: true, borg_passphrase: None };
    assert!(none.get_passphrase(None).unwrap().is_none());

    let env = PassphraseSource {
        keyfile: None,
        raw: false,
        none: false,
        borg_passphrase: Some(Passphrase::new("from-env".to_string())),
    };
    assert_eq!(env.get_passphrase(None).unwrap().unwrap().inner(), "from-env");

    let keyfile = PassphraseSource {
        keyfile: Some("/keys/k".to_string()),
        raw: false,
        none: false,
        borg_passphrase: None,
    };
    assert_eq!(
        keyfile.get_passphrase(Some("pw\n")).unwrap().unwrap().inner(),
        "pw"
    );
    assert!(matches!(
        keyfile.get_passphrase(None),
        Err(BorgError::KeyfileUnreadable)
    ));

    let nothing = PassphraseSource { keyfile: None, raw: false, none: false, borg_passphrase: None };
    assert!(nothing.get_passphrase(None).unwrap().is_none());
}

#[test]
fn encryption_from_passphrase_source() {
    // raw with a passphrase stores it inline
    let raw = PassphraseSource {
        keyfile: None,
        raw: true,
        none: false,
        borg_passphrase: Some(Passphrase::new("pw".to_string())),
    };
    let (enc, write) = Encryption::from_passphrase_loc(&raw, false);
    assert!(matches!(enc, Encryption::Raw(_)));
    assert!(write.is_none());

    // a keyfile that does not exist yet, with a passphrase at hand, is created
    let keyfile = PassphraseSource {
        keyfile: Some("/keys/k".to_string()),
        raw: false,
        none: false,
        borg_passphrase: Some(Passphrase::new("pw".to_string())),
    };
    let (enc, write) = Encryption::from_passphrase_loc(&keyfile, false);
    assert!(matches!(enc, Encryption::Keyfile(_)));
    let KeyfileWrite { path, passphrase } = write.unwrap();
    assert_eq!(path, "/keys/k");
    assert_eq!(passphrase.inner(), "pw");

    // an existing keyfile is left alone
    let (_, write) = Encryption::from_passphrase_loc(&keyfile, true);
    assert!(write.is_none());

    // a passphrase without a keyfile goes to the keyring
    let env_only = PassphraseSource {
        keyfile: None,
        raw: false,
        none: false,
        borg_passphrase: Some(Passphrase::new("pw".to_string())),
    };
    let (enc, write) = Encryption::from_passphrase_loc(&env_only, false);
    assert!(matches!(enc, Encryption::Keyring));
    assert!(write.is_none());

    // nothing at all means no encryption
    let nothing = PassphraseSource { keyfile: None, raw: false, none: false, borg_passphrase: None };
    let (enc, _) = Encryption::from_passphrase_loc(&nothing, false);
    assert!(matches!(enc, Encryption::NoEncryption));
}

#[test]
fn duplicate_repositories_are_rejected() {
    let mut profile = Profile::blank("p");
    profile.add_repository_checked(repo("/a")).unwrap();
    assert!(matches!(
        profile.add_repository_checked(repo("/a")),
        Err(BorgError::RepositoryAlreadyExists)
    ));
    profile.add_repository_checked(repo("/b")).unwrap();
    assert_eq!(profile.num_repos(), 2);
}

#[test]
fn mounting_disabled_repositories_is_refused() {
    let mut r = repo("/a");
    assert!(r.ensure_mountable().is_ok());
    r.disabled = true;
    assert!(matches!(r.ensure_mountable(), Err(BorgError::RepositoryDisabled)));
}
