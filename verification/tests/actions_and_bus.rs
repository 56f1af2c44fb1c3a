use borgtui::finder::DirectoryFinder;
use borgtui::finder::is_excluded;
use borgtui::actions::{
    archives_to_skip, generate_system_unit, latest_archives, negated_globs, plan_backup,
    plan_checks, quoted_paths, require_passphrase, restic_backup_args, systemd_unit_params,
};
use borgtui::bus::{Command, DispatchMode};
use borgtui::profiles::{
    BorgError, BorgV1OptionsBuilder, Encryption, Passphrase, Profile, ProfileOperation,
    PruneOptions, Repository, RepositoryOptions,
};
use borgtui::types::{sort_archives_by_time, Archive};

fn repo(path: &str, disabled: bool) -> Repository {
    let mut r = Repository::new(
        path.to_string(),
        Encryption::NoEncryption,
        RepositoryOptions::BorgV1(BorgV1OptionsBuilder::new().build()),
    );
    r.disabled = disabled;
    r
}

#[test]
fn backup_plans_cover_active_repositories() {
    let mut profile = Profile::blank("dev");
    profile.add_repository(repo("/a", false));
    profile.add_repository(repo("/b", true));
    profile.add_repository(repo("/c", false));
    let plan = plan_backup(&profile, 2024, 3, 7, 9, 5, 1);
    assert_eq!(plan.archive_name, "dev-2024-03-07:09:05:01");
    let paths: Vec<&str> = plan.repositories.iter().map(|r| r.path.as_str()).collect();
    assert_eq!(paths, vec!["/a", "/c"]);
    let counter = borgtui::actions::completion_counter_for(&plan);
    assert!(!counter.is_complete());
}

#[test]
fn check_plans_mark_skips() {
    let mut profile = Profile::blank("dev");
    profile.add_repository(repo("/a", false));
    profile.add_repository(repo("/b", false));
    let only = Some(vec!["/b".to_string()]);
    let tasks = plan_checks(&profile, &only);
    assert_eq!(tasks.len(), 2);
    assert!(tasks[0].skipped);
    assert!(!tasks[1].skipped);
    let unrestricted = plan_checks(&profile, &None);
    assert!(unrestricted.iter().all(|t| !t.skipped));
}

#[test]
fn passphrase_requirement() {
    assert_eq!(
        require_passphrase(Some(Passphrase::new("pw".to_string()))).unwrap().inner(),
        "pw"
    );
    assert!(matches!(require_passphrase(None), Err(BorgError::PassphraseMissing)));
}

#[test]
fn listing_trim() {
    assert_eq!(archives_to_skip(10, false, 3), 7);
    assert_eq!(archives_to_skip(2, false, 3), 0);
    assert_eq!(archives_to_skip(10, true, 3), 0);
    let archives = vec![
        Archive::new("one".to_string(), 1),
        Archive::new("two".to_string(), 2),
        Archive::new("three".to_string(), 3),
    ];
    let last_two = latest_archives(&archives, false, 2);
    let names: Vec<&str> = last_two.iter().map(|a| a.name.as_str()).collect();
    assert_eq!(names, vec!["two", "three"]);
    assert_eq!(latest_archives(&archives, true, 1).len(), 3);
}

#[test]
fn archives_sort_oldest_first() {
    let archives = vec![
        Archive::new("b".to_string(), 20),
        Archive::new("a".to_string(), 10),
        Archive::new("c".to_string(), 30),
        Archive::new("a2".to_string(), 10),
    ];
    let sorted = sort_archives_by_time(archives);
    let stamps: Vec<i64> = sorted.iter().map(|a| a.creation_ts).collect();
    assert_eq!(stamps, vec![10, 10, 20, 30]);
    // stability: equal timestamps keep their relative order
    assert_eq!(sorted[0].name, "a");
    assert_eq!(sorted[1].name, "a2");
}

#[test]
fn systemd_units() {
    assert_eq!(systemd_unit_params(true, true), ("check", "monthly", "timer"));
    assert_eq!(systemd_unit_params(false, false), ("create", "*-*-* 21:00:00", "service"));
    let service = generate_system_unit("default", false, "create", "*-*-* 21:00:00");
    assert_eq!(
        service,
        "[Unit]\nDescription=BorgTUI create for profile `default`\n\n[Service]\nType=simple\nExecStart=borgtui -p default create\n\n[Install]\nWantedBy=default.target\n"
    );
    let timer = generate_system_unit("default", true, "check", "monthly");
    assert_eq!(
        timer,
        "[Unit]\nDescription=Run BorgTUI check on a schedule (\"monthly\")\n\n[Timer]\nOnCalendar=monthly\nPersistent=true\n\n[Install]\nWantedBy=timers.target"
    );
}

#[test]
fn engine_argument_vectors() {
    assert_eq!(
        negated_globs(&vec!["**/tmp*".to_string(), "*.o".to_string()]),
        vec!["!**/tmp*".to_string(), "!*.o".to_string()]
    );
    assert_eq!(
        quoted_paths(&vec!["/home/a b".to_string()]),
        vec!["'/home/a b'".to_string()]
    );
    let args = restic_backup_args(
        "/repo",
        &vec!["/data".to_string(), "/etc".to_string()],
        &vec!["**/tmp*".to_string()],
        true,
    );
    assert_eq!(
        args,
        vec![
            "backup", "--repo", "/repo", "--json", "/data", "/etc", "--tag", "borgtui",
            "--exclude", "**/tmp*", "--exclude-caches",
        ]
        .into_iter()
        .map(String::from)
        .collect::<Vec<_>>()
    );
    let no_cache_flag = restic_backup_args("/repo", &vec![], &vec![], false);
    assert_eq!(
        no_cache_flag,
        vec!["backup", "--repo", "/repo", "--json", "--tag", "borgtui"]
            .into_iter()
            .map(String::from)
            .collect::<Vec<_>>()
    );
}

#[test]
fn dispatch_modes() {
    let profile = Profile::blank("p");
    let r = repo("/a", false);
    assert_eq!(Command::CreateBackup(profile).dispatch_mode(), DispatchMode::Inline);
    assert_eq!(
        Command::SaveProfile(Profile::blank("p")).dispatch_mode(),
        DispatchMode::Inline
    );
    assert_eq!(
        Command::UpdateProfileAndSave(
            Profile::blank("p"),
            ProfileOperation::RemoveBackupPath("/x".to_string())
        )
        .dispatch_mode(),
        DispatchMode::Inline
    );
    assert_eq!(Command::ListArchives(repo("/a", false)).dispatch_mode(), DispatchMode::Spawn);
    assert_eq!(Command::Compact(repo("/a", false)).dispatch_mode(), DispatchMode::Spawn);
    assert_eq!(
        Command::Prune(repo("/a", false), PruneOptions::default()).dispatch_mode(),
        DispatchMode::Spawn
    );
    assert_eq!(
        Command::DetermineDirectorySize("/d".to_string(), vec![]).dispatch_mode(),
        DispatchMode::SpawnBlocking
    );
    assert_eq!(
        Command::GetDirectorySuggestionsFor("/d".to_string()).dispatch_mode(),
        DispatchMode::SpawnBlocking
    );
    assert_eq!(
        Command::Mount(repo("/a", false), "/a".to_string(), "/mnt".to_string()).dispatch_mode(),
        DispatchMode::Spawn
    );
    assert_eq!(Command::Unmount("/mnt".to_string()).dispatch_mode(), DispatchMode::Spawn);
    assert_eq!(Command::Quit.dispatch_mode(), DispatchMode::Quit);

    assert!(Command::Compact(r).dispatch_mode() == DispatchMode::Spawn);
    assert!(Command::Quit.requires_repo_lock() == false);
    assert!(Command::Compact(repo("/a", false)).requires_repo_lock());
    assert!(Command::CreateBackup(Profile::blank("p")).requires_repo_lock());
    assert!(!Command::Unmount("/m".to_string()).requires_repo_lock());
}

#[test]
fn exclusion_patterns() {
    let patterns = vec!["**/tmp*".to_string(), "*.o".to_string()];
    assert!(is_excluded(&patterns, "/x/tmp1"));
    assert!(is_excluded(&patterns, "main.o"));
    assert!(!is_excluded(&patterns, "/x/data"));
    // an invalid glob excludes nothing
    assert!(!is_excluded(&vec!["[".to_string()], "/x/data"));
}

#[test]
fn invalid_exclude_patterns_are_reported() {
    let mut finder = DirectoryFinder::new();
    assert_eq!(
        finder
            .seed_exclude_patterns(&vec!["ok*".to_string(), "[".to_string()])
            .unwrap_err(),
        BorgError::InvalidPattern
    );
    finder.seed_exclude_patterns(&vec!["**/skip*".to_string()]).unwrap();
    finder.note_directories(&vec!["/a/skipme".to_string(), "/a/keep".to_string()]);
    let (suggestions, _) = finder.suggestions("/", 10);
    assert_eq!(suggestions, vec!["/a/keep".to_string()]);
}
