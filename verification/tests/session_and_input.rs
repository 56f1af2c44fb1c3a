use borgtui::input::MountPopupSelectionState;
use borgtui::profiles::{BorgV1OptionsBuilder, Encryption, Repository, RepositoryOptions};
use borgtui::session::UIState;
use borgtui::bus::{Command, CommandResponse};
use borgtui::emitter::{format_bytes, ProgressEmitter, ProgressEmitterKind};
use borgtui::input::{
    parent_dir, AddFileToProfilePopup, CompletionMode, ConfirmationButtonState, ConfirmationPopup,
    InputFieldWithSuggestions, InputKey, KeyOutcome, MessagePopup, MountPopup, ValidationMode,
};
use borgtui::profiles::Profile;
use borgtui::session::{keyboard_intent, BackupStat, BackupState, TuiModel, UiIntent};
use borgtui::types::{Archive, BackupCreationProgress, RepositoryArchives};

#[test]
fn keyboard_bindings() {
    assert_eq!(keyboard_intent('q'), Some(UiIntent::Quit));
    assert_eq!(keyboard_intent('u'), Some(UiIntent::StartBackup));
    assert_eq!(keyboard_intent('l'), Some(UiIntent::ListArchives));
    assert_eq!(keyboard_intent('p'), Some(UiIntent::ToggleProfileView));
    assert_eq!(keyboard_intent('a'), Some(UiIntent::AddBackupPath));
    assert_eq!(keyboard_intent('s'), Some(UiIntent::SaveProfile));
    assert_eq!(keyboard_intent('c'), Some(UiIntent::Compact));
    assert_eq!(keyboard_intent('m'), Some(UiIntent::MountArchive));
    assert_eq!(keyboard_intent('M'), Some(UiIntent::MountRepository));
    assert_eq!(keyboard_intent('G'), Some(UiIntent::UnmountAll));
    assert_eq!(keyboard_intent('\\'), Some(UiIntent::Prune));
    assert_eq!(keyboard_intent('z'), None);
}

#[test]
fn backup_state_tracks_finishes_and_stats() {
    let mut state = BackupState::new();
    assert!(!state.is_finished("/a"));
    state.mark_finished("/a".to_string());
    assert!(state.is_finished("/a"));
    assert!(!state.is_finished("/b"));
    state.clear_finished();
    assert!(!state.is_finished("/a"));

    assert!(state.latest_stats_for_repo("/a").is_none());
    state.record_create_progress("/a", "/a/file1".to_string(), BackupStat::new(1, 10, 8, 6));
    state.record_create_progress("/a", "/a/file2".to_string(), BackupStat::new(2, 20, 16, 12));
    let latest = state.latest_stats_for_repo("/a").unwrap();
    assert_eq!(latest.num_files, 2);
    assert_eq!(latest.original_size, 20);
    assert!(state.latest_stats_for_repo("/b").is_none());
}

#[test]
fn stale_suggestion_batches_are_discarded() {
    let mut model = TuiModel::new(Profile::blank("p"));
    model.handle_command(CommandResponse::SuggestionResults(vec!["/new".to_string()], 5));
    // an older batch arriving late must not replace the newer one
    model.handle_command(CommandResponse::SuggestionResults(vec!["/old".to_string()], 2));
    // a same-generation duplicate is ignored too
    model.handle_command(CommandResponse::SuggestionResults(vec!["/dup".to_string()], 5));
    // a newer batch wins
    model.handle_command(CommandResponse::SuggestionResults(vec!["/newest".to_string()], 7));
    // drive the generation through the public surface: feeding an older
    // batch afterwards changes nothing observable
    model.handle_command(CommandResponse::SuggestionResults(vec!["/older".to_string()], 6));
    // no direct getter for the suggestion list is part of the session
    // model; its behavior is pinned by the verified contract. Here we only
    // check the model stays alive and well across the sequence.
    assert!(!model.done());
}

#[test]
fn model_tracks_mounts_and_profile_updates() {
    let mut model = TuiModel::new(Profile::blank("p"));
    let follow_up = model.handle_command(CommandResponse::MountResult(
        "/repo::arch".to_string(),
        "/mnt/borg".to_string(),
    ));
    assert!(follow_up.is_empty());

    let mut updated = Profile::blank("p");
    updated.add_backup_path("/data".to_string(), "/data", true).unwrap();
    let follow_up = model.handle_command(CommandResponse::ProfileUpdated(updated));
    assert_eq!(follow_up.len(), 1);
    assert!(matches!(&follow_up[0], Command::DetermineDirectorySize(path, _) if path == "/data"));

    // the same path is not asked about twice
    let mut updated = Profile::blank("p");
    updated.add_backup_path("/data".to_string(), "/data", true).unwrap();
    let follow_up = model.handle_command(CommandResponse::ProfileUpdated(updated));
    assert!(follow_up.is_empty());
}

#[test]
fn model_marks_backups_finished() {
    let mut model = TuiModel::new(Profile::blank("p"));
    model.handle_command(CommandResponse::CreateProgress(
        borgtui::types::BackupCreateProgress::new(
            "/repo".to_string(),
            BackupCreationProgress::InProgress {
                original_size: 10,
                compressed_size: 8,
                deduplicated_size: 6,
                num_files: 1,
                current_path: "/data/file".to_string(),
            },
        ),
    ));
    assert!(!model.backup_state.is_finished("/repo"));
    model.handle_command(CommandResponse::CreateProgress(
        borgtui::types::BackupCreateProgress::finished("/repo".to_string()),
    ));
    assert!(model.backup_state.is_finished("/repo"));
    let latest = model.backup_state.latest_stats_for_repo("/repo").unwrap();
    assert_eq!(latest.deduplicated_size, 6);
}

#[test]
fn screen_toggling() {
    let mut model = TuiModel::new(Profile::blank("p"));
    model.start_backing_up();
    model.start_list_archive_state();
    assert!(model.is_a_toggle_to_previous_screen(UIState::ListAllArchives));
    assert!(!model.is_a_toggle_to_previous_screen(UIState::BackingUp));
    model.toggle_to_previous_screen();
    assert!(model.is_a_toggle_to_previous_screen(UIState::BackingUp));
    model.toggle_to_previous_screen();
    assert!(model.is_a_toggle_to_previous_screen(UIState::ListAllArchives));
    model.mark_done();
    assert!(model.done());
}

#[test]
fn emitter_messages() {
    let mut e = ProgressEmitter::check("/repo".to_string()).with_prefix("verify".to_string());
    e.set_length(2048);
    // a fresh emitter emits on the first substantial change
    let first = e.inc(1024, 0);
    match first {
        Some(CommandResponse::CheckProgress(p)) => {
            assert_eq!(p.repo_location, "/repo");
            assert_eq!(p.message, "verify 1 KiB / 2 KiB");
        }
        _ => panic!("expected a check-progress event"),
    }
    // a tiny follow-up within the rate limit stays silent
    let second = e.inc(1, 100);
    assert!(second.is_none());
    // enough silence forces the next event out
    let third = e.inc(1, 400);
    assert!(third.is_some());
}

#[test]
fn emitter_kinds_and_finish() {
    let backup = ProgressEmitter::create_backup("/r".to_string());
    assert_eq!(backup.kind, ProgressEmitterKind::Backup);
    assert!(backup.maybe_send_backup_create_finished().is_some());
    let info = ProgressEmitter::info("/r".to_string());
    assert!(info.maybe_send_backup_create_finished().is_none());
    let mut check = ProgressEmitter::check("/r".to_string());
    assert!(check.finish(0).is_some());

    let mut b = ProgressEmitter::create_backup("/r".to_string()).with_prefix("backup".to_string());
    b.set_title("archive".to_string());
    b.set_length(4096);
    match b.send_message(0) {
        CommandResponse::CreateProgress(p) => {
            assert_eq!(p.repository, "/r");
            match p.create_progress {
                BackupCreationProgress::InProgress {
                    original_size,
                    compressed_size,
                    current_path,
                    ..
                } => {
                    assert_eq!(original_size, 4096);
                    assert_eq!(compressed_size, 0);
                    assert_eq!(current_path, "backup: archive - 0 B / 4 KiB");
                }
                _ => panic!("expected in-progress"),
            }
        }
        _ => panic!("expected create-progress"),
    }
    assert_eq!(format_bytes(4096), "4 KiB");
}

#[test]
fn parent_directories() {
    assert_eq!(parent_dir("/home/user/docs"), "/home/user/");
    assert_eq!(parent_dir("/home/user/docs/"), "/home/user/");
    assert_eq!(parent_dir("/home"), "/");
    assert_eq!(parent_dir("/"), "/");
    assert_eq!(parent_dir("plain"), "/");
}

#[test]
fn input_field_editing() {
    let mut field = InputFieldWithSuggestions::new("".to_string(), "Input".to_string());
    assert!(!field.is_done());
    field.handle_key(InputKey::Char('a'), CompletionMode::Directory, ValidationMode::AlwaysValid);
    field.handle_key(InputKey::Char('b'), CompletionMode::Directory, ValidationMode::AlwaysValid);
    assert_eq!(field.on_input_buffer_changed(), Some("ab".to_string()));
    assert_eq!(field.on_input_buffer_changed(), None);
    field.handle_key(
        InputKey::Backspace { word: false },
        CompletionMode::Directory,
        ValidationMode::AlwaysValid,
    );
    assert_eq!(field.on_input_buffer_changed(), Some("a".to_string()));
    match field.handle_key(InputKey::Enter, CompletionMode::Directory, ValidationMode::AlwaysValid)
    {
        KeyOutcome::Submit(value) => assert_eq!(value, "a"),
        _ => panic!("expected a submission"),
    }
    // validation against the (empty) suggestion set refuses the buffer
    match field.handle_key(InputKey::Enter, CompletionMode::Directory, ValidationMode::MustBeKnown)
    {
        KeyOutcome::Nothing => {}
        _ => panic!("an unknown value must not submit"),
    }
    field.handle_key(InputKey::Cancel, CompletionMode::Directory, ValidationMode::AlwaysValid);
    assert!(field.is_done());
}

#[test]
fn input_field_completion_and_cursor() {
    let mut field = InputFieldWithSuggestions::new("/a/b".to_string(), "Input".to_string());
    field.update_suggestions(&vec![
        "/a/c".to_string(),
        "/a/bb".to_string(),
        "/a/b".to_string(),
    ]);
    // directory completion on an exact match asks the caller to
    // canonicalize
    match field.handle_key(InputKey::Tab, CompletionMode::Directory, ValidationMode::AlwaysValid) {
        KeyOutcome::RequestCanonicalize(path) => assert_eq!(path, "/a/b"),
        _ => panic!("expected a canonicalize request"),
    }
    field.apply_canonicalized("/a/b".to_string());
    assert_eq!(field.on_input_buffer_changed(), Some("/a/b/".to_string()));

    // word backspace climbs to the parent directory
    field.handle_key(
        InputKey::Backspace { word: true },
        CompletionMode::Directory,
        ValidationMode::AlwaysValid,
    );
    assert_eq!(field.on_input_buffer_changed(), Some("/a/".to_string()));

    // the cursor walks the sorted suggestions
    field.update_cursor(0);
    match field.handle_key(InputKey::Enter, CompletionMode::Directory, ValidationMode::MustBeKnown)
    {
        KeyOutcome::Submit(value) => assert_eq!(value, "/a/b"),
        _ => panic!("expected the first suggestion"),
    }
    field.handle_key(InputKey::Down, CompletionMode::FirstAtOrAfter, ValidationMode::MustBeKnown);
    match field.handle_key(InputKey::Enter, CompletionMode::Directory, ValidationMode::MustBeKnown)
    {
        KeyOutcome::Submit(value) => assert_eq!(value, "/a/bb"),
        _ => panic!("expected the second suggestion"),
    }
}

#[test]
fn confirmation_dialog() {
    assert_eq!(ConfirmationButtonState::Yes.compliment(), ConfirmationButtonState::No);
    assert_eq!(ConfirmationButtonState::No.compliment(), ConfirmationButtonState::Yes);

    let mut popup = ConfirmationPopup::new("Unmount all?".to_string(), ConfirmationButtonState::Yes);
    assert!(!popup.is_done());
    assert_eq!(popup.handle_key(InputKey::Left), None);
    assert_eq!(popup.handle_key(InputKey::Enter), Some(ConfirmationButtonState::No));
    assert!(popup.is_done());

    let mut popup = ConfirmationPopup::new("Sure?".to_string(), ConfirmationButtonState::No);
    assert_eq!(popup.handle_key(InputKey::Char('y')), Some(ConfirmationButtonState::Yes));

    let mut popup = ConfirmationPopup::new("Sure?".to_string(), ConfirmationButtonState::Yes);
    assert_eq!(popup.handle_key(InputKey::Char('q')), None);
    assert!(popup.is_done());
}

#[test]
fn message_popup_dismisses() {
    let mut popup = MessagePopup::new("something failed".to_string());
    assert!(!popup.is_done());
    popup.handle_key(InputKey::Char('x'));
    assert!(!popup.is_done());
    popup.handle_key(InputKey::Char('q'));
    assert!(popup.is_done());
}

#[test]
fn add_file_popup_lifecycle() {
    let mut popup = AddFileToProfilePopup::new("/home/user".to_string());
    assert!(!popup.is_done());
    let command = popup.on_tick(&vec!["/home/user/docs".to_string()]);
    assert!(matches!(command, Some(Command::GetDirectorySuggestionsFor(f)) if f == "/home/user"));
    // no change, no new lookup
    assert!(popup.on_tick(&vec![]).is_none());
    match popup.handle_key(InputKey::Enter) {
        KeyOutcome::Submit(value) => assert_eq!(value, "/home/user"),
        _ => panic!("expected submission"),
    }
    popup.mark_path_added();
    assert!(popup.is_done());
}

#[test]
fn mount_popup_walks_its_phases() {
    let mut popup = MountPopup::new(false);
    assert_eq!(popup.state, MountPopupSelectionState::Archive);
    let listings = vec![RepositoryArchives::new(
        "/repo".to_string(),
        vec![Archive::new("arch-1".to_string(), 1)],
    )];
    popup.update_list_archive_suggestions(&listings);
    // jump to the only selector and confirm it
    popup.handle_key(InputKey::Tab, "/home/user/borg-mount".to_string());
    assert_eq!(popup.handle_key(InputKey::Enter, "/home/user/borg-mount".to_string()), None);
    assert_eq!(popup.state, MountPopupSelectionState::MountPoint);
    // the mountpoint input was seeded with the default; submitting it
    // yields the mount request
    let mount = popup.handle_key(InputKey::Enter, String::new());
    assert_eq!(
        mount,
        Some(("/repo::arch-1".to_string(), "/home/user/borg-mount".to_string()))
    );
    assert!(popup.is_done());

    let repo_popup = MountPopup::new(true);
    assert_eq!(repo_popup.state, MountPopupSelectionState::Repo);
}

#[test]
fn command_builders_cover_active_repositories() {
    let mut profile = Profile::blank("p");
    let options = RepositoryOptions::BorgV1(BorgV1OptionsBuilder::new().build());
    profile.add_repository(Repository::new("/a".to_string(), Encryption::NoEncryption, options));
    let mut disabled = Repository::new(
        "/b".to_string(),
        Encryption::NoEncryption,
        RepositoryOptions::BorgV1(BorgV1OptionsBuilder::new().build()),
    );
    disabled.disabled = true;
    profile.add_repository(disabled);
    let mut model = TuiModel::new(profile);

    let compacts = model.compact_commands();
    assert_eq!(compacts.len(), 1);
    assert!(matches!(&compacts[0], Command::Compact(rep) if rep.path == "/a"));

    let prunes = model.prune_commands();
    assert_eq!(prunes.len(), 1);
    assert!(matches!(&prunes[0], Command::Prune(rep, opts) if rep.path == "/a" && opts.keep_daily == 64));

    let listings = model.list_archives_commands();
    assert!(matches!(&listings[0], Command::ListArchives(rep) if rep.path == "/a"));

    model.handle_command(CommandResponse::MountResult("/a::x".to_string(), "/mnt/a".to_string()));
    model.handle_command(CommandResponse::MountResult("/a::y".to_string(), "/mnt/b".to_string()));
    let unmounts = model.unmount_all_commands();
    assert_eq!(unmounts.len(), 2);
    assert!(matches!(&unmounts[0], Command::Unmount(m) if m == "/mnt/a"));
    assert!(matches!(&unmounts[1], Command::Unmount(m) if m == "/mnt/b"));
    // the mounted list emptied: unmounting again yields nothing
    assert!(model.unmount_all_commands().is_empty());
}

#[test]
fn profile_duplicate_is_value_identical() {
    let mut profile = Profile::blank("p");
    profile.add_backup_path("/a".to_string(), "/a", true).unwrap();
    let copy = profile.duplicate();
    assert_eq!(copy.name(), profile.name());
    assert_eq!(copy.backup_paths(), profile.backup_paths());
    assert_eq!(copy.num_repos(), profile.num_repos());
}
