//! The interactive session's state model: what the terminal consumer
//! knows — backup statistics, listing results, suggestion batches,
//! mounted items, logs — and how each bus response changes it. Rendering
//! and the input loop live in the application; every state decision is
//! here.
use vstd::prelude::*;

use crate::bus::{Command, CommandResponse};
use crate::profiles::Profile;
use crate::ring::{ring_push, RingBuffer};
use crate::strutil::{clone_string_vec, str_eq};
use crate::types::{BackupCreationProgress, RepositoryArchives};

verus! {

/// How many backup statistics are retained per repository.
pub const BACKUP_STATS_RETENTION_AMOUNT: usize = 100;

/// How many recently backed up files are remembered per repository.
pub const NUM_RECENTLY_BACKED_UP_FILES: usize = 5;

/// How many informational log lines the session keeps.
pub const NUM_INFO_LOGS: usize = 10;

/// One sample of a running backup's statistics.
#[derive(Clone, Copy, Debug, PartialEq, Eq, Structural)]
pub struct BackupStat {
    pub num_files: u64,
    pub original_size: u64,
    pub compressed_size: u64,
    pub deduplicated_size: u64,
}

impl BackupStat {
    pub fn new(num_files: u64, original_size: u64, compressed_size: u64, deduplicated_size: u64) -> (r: Self)
        ensures
            r == (BackupStat { num_files, original_size, compressed_size, deduplicated_size }),
    {
        BackupStat { num_files, original_size, compressed_size, deduplicated_size }
    }
}

/// The per-repository progress state of the backup screen: statistics
/// windows, recently seen files, and which repositories have finished.
pub struct BackupState {
    backup_stats: Vec<(String, RingBuffer<BackupStat, BACKUP_STATS_RETENTION_AMOUNT>)>,
    recently_backed_up_files: Vec<(String, RingBuffer<String, NUM_RECENTLY_BACKED_UP_FILES>)>,
    finished_backing_up: Vec<String>,
}

/// The first value an association list holds under `key`.
pub open spec fn assoc_get<V>(entries: Seq<(String, V)>, key: Seq<char>) -> Option<V>
    decreases entries.len(),
{
    if entries.len() == 0 {
        None
    } else if entries[0].0@ == key {
        Some(entries[0].1)
    } else {
        assoc_get(entries.skip(1), key)
    }
}

impl BackupState {
    /// Which repositories have reported their terminal backup event.
    pub closed spec fn finished(&self) -> Seq<Seq<char>> {
        self.finished_backing_up@.map_values(|s: String| s@)
    }

    /// The retained statistics window of one repository.
    pub closed spec fn stats_of(&self, repo: Seq<char>) -> Option<Seq<BackupStat>> {
        match assoc_get(self.backup_stats@, repo) {
            Some(ring) => Some(ring@),
            None => None,
        }
    }

    /// The recently backed up files of one repository.
    pub closed spec fn recent_files_of(&self, repo: Seq<char>) -> Option<Seq<Seq<char>>> {
        match assoc_get(self.recently_backed_up_files@, repo) {
            Some(ring) => Some(ring@.map_values(|s: String| s@)),
            None => None,
        }
    }

    pub fn new() -> (r: Self)
        ensures
            r.finished() == Seq::<Seq<char>>::empty(),
    {
        let r = BackupState {
            backup_stats: Vec::new(),
            recently_backed_up_files: Vec::new(),
            finished_backing_up: Vec::new(),
        };
        proof {
            assert(r.finished() =~= Seq::<Seq<char>>::empty());
        }
        r
    }

    /// Notes that a repository's backup reported its terminal event.
    pub fn mark_finished(&mut self, repo: String)
        ensures
            final(self).finished() == old(self).finished().push(repo@),
            forall|k: Seq<char>| final(self).stats_of(k) == old(self).stats_of(k),
            forall|k: Seq<char>| final(self).recent_files_of(k) == old(self).recent_files_of(k),
    {
        self.finished_backing_up.push(repo);
        proof {
            assert(final(self).finished() =~= old(self).finished().push(repo@));
        }
    }

    /// Whether a repository's backup has finished.
    pub fn is_finished(&self, repo: &str) -> (r: bool)
        ensures
            r == self.finished().contains(repo@),
    {
        let mut i: usize = 0;
        while i < self.finished_backing_up.len()
            invariant
                i <= self.finished_backing_up@.len(),
                forall|j: int| 0 <= j < i ==> (#[trigger] self.finished_backing_up@[j])@ != repo@,
            decreases self.finished_backing_up@.len() - i,
        {
            if str_eq(self.finished_backing_up[i].as_str(), repo) {
                proof {
                    assert(self.finished()[i as int] == repo@);
                }
                return true;
            }
            i = i + 1;
        }
        proof {
            if self.finished().contains(repo@) {
                let j = choose|j: int|
                    0 <= j < self.finished().len() && self.finished()[j] == repo@;
                assert((self.finished_backing_up@[j])@ == repo@);
            }
        }
        false
    }

    /// Forgets which repositories had finished (a new backup run starts).
    pub fn clear_finished(&mut self)
        ensures
            final(self).finished() == Seq::<Seq<char>>::empty(),
            forall|k: Seq<char>| final(self).stats_of(k) == old(self).stats_of(k),
            forall|k: Seq<char>| final(self).recent_files_of(k) == old(self).recent_files_of(k),
    {
        self.finished_backing_up = Vec::new();
        proof {
            assert(final(self).finished() =~= Seq::<Seq<char>>::empty());
        }
    }

    fn stats_index(&self, repo: &str) -> (r: Option<usize>)
        ensures
            match r {
                Some(i) => i < self.backup_stats@.len() && (self.backup_stats@[i as int]).0@
                    == repo@ && forall|j: int|
                    0 <= j < i ==> (#[trigger] self.backup_stats@[j]).0@ != repo@,
                None => forall|j: int|
                    0 <= j < self.backup_stats@.len() ==> (#[trigger] self.backup_stats@[j]).0@
                        != repo@,
            },
    {
        let mut i: usize = 0;
        while i < self.backup_stats.len()
            invariant
                i <= self.backup_stats@.len(),
                forall|j: int| 0 <= j < i ==> (#[trigger] self.backup_stats@[j]).0@ != repo@,
            decreases self.backup_stats@.len() - i,
        {
            if str_eq(self.backup_stats[i].0.as_str(), repo) {
                return Some(i);
            }
            i = i + 1;
        }
        None
    }

    /// The newest statistics sample of one repository.
    pub fn latest_stats_for_repo(&self, repo: &str) -> (r: Option<BackupStat>)
        ensures
            match self.stats_of(repo@) {
                Some(stats) => (if stats.len() > 0 {
                    r == Some(stats.last())
                } else {
                    r is None
                }),
                None => r is None,
            },
    {
        proof {
            lemma_assoc_get_first(self.backup_stats@, repo@);
        }
        match self.stats_index(repo) {
            Some(i) => {
                proof {
                    lemma_assoc_get_at(self.backup_stats@, repo@, i as int);
                }
                match self.backup_stats[i].1.back() {
                    Some(stat) => Some(*stat),
                    None => None,
                }
            },
            None => None,
        }
    }

    /// Folds one progress sample in: the file joins the repository's
    /// recent-files window and the statistics join its window, both
    /// bounded.
    pub fn record_create_progress(&mut self, repo: &str, path: String, stat: BackupStat)
        ensures
            final(self).finished() == old(self).finished(),
            final(self).stats_of(repo@) matches Some(stats) && stats == ring_push(
                match old(self).stats_of(repo@) {
                    Some(prev) => prev,
                    None => Seq::<BackupStat>::empty(),
                },
                stat,
                BACKUP_STATS_RETENTION_AMOUNT as nat,
            ),
    {
        proof {
            lemma_assoc_get_first(self.backup_stats@, repo@);
        }
        let idx = self.stats_index(repo);
        let mut entries: Vec<(String, RingBuffer<BackupStat, BACKUP_STATS_RETENTION_AMOUNT>)> =
            Vec::new();
        std::mem::swap(&mut entries, &mut self.backup_stats);
        match idx {
            Some(i) => {
                let ghost old_entries = entries@;
                let (key, mut ring) = entries.remove(i);
                proof {
                    lemma_assoc_get_at(old_entries, repo@, i as int);
                }
                ring.push_back(stat);
                entries.insert(i, (key, ring));
                proof {
                    assert(entries@ =~= old_entries.update(
                        i as int,
                        (old_entries[i as int].0, ring),
                    ));
                    lemma_assoc_get_update(old_entries, repo@, i as int, ring);
                }
            },
            None => {
                let ghost old_entries = entries@;
                let mut ring = RingBuffer::<BackupStat, BACKUP_STATS_RETENTION_AMOUNT>::new();
                ring.push_back(stat);
                entries.push((repo.to_owned(), ring));
                proof {
                    let kv = entries@.last();
                    assert(kv.0@ == repo@);
                    assert(entries@ =~= old_entries.push(kv));
                    lemma_assoc_get_push(old_entries, repo@, kv);
                    assert(ring@ =~= ring_push(
                        Seq::<BackupStat>::empty(),
                        stat,
                        BACKUP_STATS_RETENTION_AMOUNT as nat,
                    ));
                }
            },
        }
        std::mem::swap(&mut entries, &mut self.backup_stats);
        self.insert_recently_backed_up_file(repo, path);
    }

    /// Remembers one recently backed up file of a repository.
    pub fn insert_recently_backed_up_file(&mut self, repo: &str, path: String)
        ensures
            final(self).finished() == old(self).finished(),
            forall|k: Seq<char>| final(self).stats_of(k) == old(self).stats_of(k),
    {
        let mut i: usize = 0;
        let len = self.recently_backed_up_files.len();
        let mut found: Option<usize> = None;
        loop
            invariant
                i <= len,
                len == self.recently_backed_up_files@.len(),
                found matches Some(k) ==> k < len && (self.recently_backed_up_files@[k as int]).0@
                    == repo@,
                found is None ==> forall|j: int|
                    0 <= j < i ==> (#[trigger] self.recently_backed_up_files@[j]).0@ != repo@,
            ensures
                found matches Some(k) ==> k < len && (self.recently_backed_up_files@[k as int]).0@
                    == repo@,
                len == self.recently_backed_up_files@.len(),
            decreases len - i,
        {
            if i == len {
                break;
            }
            if str_eq(self.recently_backed_up_files[i].0.as_str(), repo) {
                found = Some(i);
                break;
            }
            i = i + 1;
        }
        let mut entries: Vec<(String, RingBuffer<String, NUM_RECENTLY_BACKED_UP_FILES>)> =
            Vec::new();
        std::mem::swap(&mut entries, &mut self.recently_backed_up_files);
        match found {
            Some(k) => {
                let (key, mut ring) = entries.remove(k);
                ring.push_back(path);
                entries.insert(k, (key, ring));
            },
            None => {
                let mut ring = RingBuffer::<String, NUM_RECENTLY_BACKED_UP_FILES>::new();
                ring.push_back(path);
                entries.push((repo.to_owned(), ring));
            },
        }
        std::mem::swap(&mut entries, &mut self.recently_backed_up_files);
    }
}

proof fn lemma_assoc_get_first<V>(entries: Seq<(String, V)>, key: Seq<char>)
    ensures
        (forall|j: int| 0 <= j < entries.len() ==> (#[trigger] entries[j]).0@ != key)
            ==> assoc_get(entries, key) is None,
    decreases entries.len(),
{
    if entries.len() > 0 {
        if forall|j: int| 0 <= j < entries.len() ==> (#[trigger] entries[j]).0@ != key {
            assert(entries[0].0@ != key);
            assert forall|j: int|
                0 <= j < entries.skip(1).len() implies (#[trigger] entries.skip(1)[j]).0@
                != key by {
                assert(entries.skip(1)[j] == entries[j + 1]);
            }
            lemma_assoc_get_first(entries.skip(1), key);
        }
    }
}

proof fn lemma_assoc_get_at<V>(entries: Seq<(String, V)>, key: Seq<char>, i: int)
    requires
        0 <= i < entries.len(),
        entries[i].0@ == key,
        forall|j: int| 0 <= j < i ==> (#[trigger] entries[j]).0@ != key,
    ensures
        assoc_get(entries, key) == Some(entries[i].1),
    decreases entries.len(),
{
    if i == 0 {
    } else {
        assert(entries[0].0@ != key);
        assert forall|j: int| 0 <= j < i - 1 implies (#[trigger] entries.skip(1)[j]).0@ != key by {
            assert(entries.skip(1)[j] == entries[j + 1]);
        }
        assert(entries.skip(1)[i - 1] == entries[i]);
        lemma_assoc_get_at(entries.skip(1), key, i - 1);
    }
}

proof fn lemma_assoc_get_update<V>(entries: Seq<(String, V)>, key: Seq<char>, i: int, value: V)
    requires
        0 <= i < entries.len(),
        entries[i].0@ == key,
        forall|j: int| 0 <= j < i ==> (#[trigger] entries[j]).0@ != key,
    ensures
        assoc_get(entries.update(i, (entries[i].0, value)), key) == Some(value),
    decreases entries.len(),
{
    let updated = entries.update(i, (entries[i].0, value));
    if i == 0 {
        assert(updated[0].0@ == key);
    } else {
        assert(updated[0] == entries[0]);
        assert(updated[0].0@ != key);
        assert(updated.skip(1) =~= entries.skip(1).update(i - 1, (entries[i].0, value)));
        assert(entries.skip(1)[i - 1] == entries[i]);
        assert forall|j: int| 0 <= j < i - 1 implies (#[trigger] entries.skip(1)[j]).0@ != key by {
            assert(entries.skip(1)[j] == entries[j + 1]);
        }
        lemma_assoc_get_update(entries.skip(1), key, i - 1, value);
    }
}

proof fn lemma_assoc_get_push<V>(entries: Seq<(String, V)>, key: Seq<char>, kv: (String, V))
    requires
        forall|j: int| 0 <= j < entries.len() ==> (#[trigger] entries[j]).0@ != key,
        kv.0@ == key,
    ensures
        assoc_get(entries.push(kv), key) == Some(kv.1),
    decreases entries.len(),
{
    let pushed = entries.push(kv);
    if entries.len() == 0 {
        assert(pushed[0] == kv);
    } else {
        assert(pushed[0] == entries[0]);
        assert(pushed[0].0@ != key);
        assert(pushed.skip(1) =~= entries.skip(1).push(kv));
        assert forall|j: int|
            0 <= j < entries.skip(1).len() implies (#[trigger] entries.skip(1)[j]).0@ != key by {
            assert(entries.skip(1)[j] == entries[j + 1]);
        }
        lemma_assoc_get_push(entries.skip(1), key, kv);
    }
}

} // verus!

verus! {

/// The screens of the interactive session.
#[derive(Clone, Copy, Debug, PartialEq, Eq, Structural)]
pub enum UIState {
    ProfileView,
    BackingUp,
    ListAllArchives,
}

/// What a key pressed on the main screen asks for.
#[derive(Clone, Copy, Debug, PartialEq, Eq, Structural)]
pub enum UiIntent {
    Quit,
    StartBackup,
    ListArchives,
    ToggleProfileView,
    AddBackupPath,
    SaveProfile,
    Compact,
    MountArchive,
    MountRepository,
    UnmountAll,
    Prune,
}

/// The main screen's key bindings.
pub fn keyboard_intent(key: char) -> (r: Option<UiIntent>)
    ensures
        r == (match key {
            'q' => Some(UiIntent::Quit),
            'u' => Some(UiIntent::StartBackup),
            'l' => Some(UiIntent::ListArchives),
            'p' => Some(UiIntent::ToggleProfileView),
            'a' => Some(UiIntent::AddBackupPath),
            's' => Some(UiIntent::SaveProfile),
            'c' => Some(UiIntent::Compact),
            'm' => Some(UiIntent::MountArchive),
            'M' => Some(UiIntent::MountRepository),
            'G' => Some(UiIntent::UnmountAll),
            '\\' => Some(UiIntent::Prune),
            _ => None::<UiIntent>,
        }),
{
    match key {
        'q' => Some(UiIntent::Quit),
        'u' => Some(UiIntent::StartBackup),
        'l' => Some(UiIntent::ListArchives),
        'p' => Some(UiIntent::ToggleProfileView),
        'a' => Some(UiIntent::AddBackupPath),
        's' => Some(UiIntent::SaveProfile),
        'c' => Some(UiIntent::Compact),
        'm' => Some(UiIntent::MountArchive),
        'M' => Some(UiIntent::MountRepository),
        'G' => Some(UiIntent::UnmountAll),
        '\\' => Some(UiIntent::Prune),
        _ => None,
    }
}

/// Everything the interactive session knows, apart from rendering: the
/// profile, per-screen state, suggestion batches with their generation,
/// the mounted items, and the log window.
pub struct TuiModel {
    profile: Profile,
    pub backup_state: BackupState,
    list_archives_state: Vec<(String, RepositoryArchives)>,
    directory_suggestions: Vec<String>,
    directory_suggestions_update_num: u64,
    currently_mounted_items: Vec<(String, String)>,
    info_logs: RingBuffer<String, NUM_INFO_LOGS>,
    known_size_paths: Vec<String>,
    ui_state: UIState,
    previous_ui_state: Option<UIState>,
    done: bool,
}

impl TuiModel {
    /// The suggestion batch on display.
    pub closed spec fn suggestions(&self) -> Seq<Seq<char>> {
        self.directory_suggestions@.map_values(|s: String| s@)
    }

    /// The generation of the batch on display.
    pub closed spec fn suggestion_generation(&self) -> nat {
        self.directory_suggestions_update_num as nat
    }

    /// The `(selector, mountpoint)` pairs currently mounted.
    pub closed spec fn mounted(&self) -> Seq<(Seq<char>, Seq<char>)> {
        self.currently_mounted_items@.map_values(|p: (String, String)| (p.0@, p.1@))
    }

    /// The log window.
    pub closed spec fn logs(&self) -> Seq<Seq<char>> {
        self.info_logs@.map_values(|s: String| s@)
    }

    pub closed spec fn screen(&self) -> UIState {
        self.ui_state
    }

    pub closed spec fn previous_screen(&self) -> Option<UIState> {
        self.previous_ui_state
    }

    /// Whether the session has decided to quit.
    pub closed spec fn is_done(&self) -> bool {
        self.done
    }

    /// The backup-screen state, for specification purposes.
    pub closed spec fn backup_state_spec(&self) -> BackupState {
        self.backup_state
    }

    pub closed spec fn profile_view(&self) -> crate::profiles::ProfileView {
        self.profile@
    }

    pub fn new(profile: Profile) -> (r: Self)
        ensures
            r.profile_view() == profile@,
            r.screen() == UIState::ProfileView,
            r.previous_screen() is None,
            r.suggestion_generation() == 0,
            r.mounted() == Seq::<(Seq<char>, Seq<char>)>::empty(),
            !r.is_done(),
    {
        let r = TuiModel {
            profile,
            backup_state: BackupState::new(),
            list_archives_state: Vec::new(),
            directory_suggestions: Vec::new(),
            directory_suggestions_update_num: 0,
            currently_mounted_items: Vec::new(),
            info_logs: RingBuffer::new(),
            known_size_paths: Vec::new(),
            ui_state: UIState::ProfileView,
            previous_ui_state: None,
            done: false,
        };
        proof {
            assert(r.mounted() =~= Seq::<(Seq<char>, Seq<char>)>::empty());
        }
        r
    }

    pub fn profile(&self) -> (r: &Profile)
        ensures
            r@ == self.profile_view(),
    {
        &self.profile
    }

    pub fn done(&self) -> (r: bool)
        ensures
            r == self.is_done(),
    {
        self.done
    }

    /// The session decided to quit: the loop stops accepting new work.
    pub fn mark_done(&mut self)
        ensures
            final(self).is_done(),
    {
        self.done = true;
    }

    /// Whether pressing the key of `associated_state` would merely toggle
    /// back from the screen already shown.
    pub fn is_a_toggle_to_previous_screen(&self, associated_state: UIState) -> (r: bool)
        ensures
            r == (self.screen() == associated_state),
    {
        self.ui_state == associated_state
    }

    /// Returns to the previous screen, remembering the current one.
    pub fn toggle_to_previous_screen(&mut self)
        ensures
            match old(self).previous_screen() {
                Some(previous) => final(self).screen() == previous && final(self).previous_screen()
                    == Some(old(self).screen()),
                None => final(self).screen() == old(self).screen() && final(self).previous_screen() is None,
            },
    {
        if let Some(previous_state) = self.previous_ui_state {
            self.previous_ui_state = Some(self.ui_state);
            self.ui_state = previous_state;
        }
    }

    /// Shows a new screen, remembering the current one.
    pub fn switch_ui_state(&mut self, new_state: UIState)
        ensures
            final(self).screen() == new_state,
            final(self).previous_screen() == Some(old(self).screen()),
    {
        self.previous_ui_state = Some(self.ui_state);
        self.ui_state = new_state;
    }

    /// Enters the backing-up screen and forgets which repositories had
    /// finished in earlier runs.
    pub fn start_backing_up(&mut self)
        ensures
            final(self).screen() == UIState::BackingUp,
            final(self).previous_screen() == Some(old(self).screen()),
            final(self).backup_state_spec().finished() == Seq::<Seq<char>>::empty(),
    {
        self.switch_ui_state(UIState::BackingUp);
        self.backup_state.clear_finished();
    }

    /// Enters the archive-listing screen.
    pub fn start_list_archive_state(&mut self)
        ensures
            final(self).screen() == UIState::ListAllArchives,
            final(self).previous_screen() == Some(old(self).screen()),
    {
        self.switch_ui_state(UIState::ListAllArchives);
    }

    /// Appends a line to the log window; everything else stands.
    pub fn add_info(&mut self, info: String)
        ensures
            final(self).logs() == ring_push(old(self).logs(), info@, NUM_INFO_LOGS as nat),
            final(self).suggestions() == old(self).suggestions(),
            final(self).suggestion_generation() == old(self).suggestion_generation(),
            final(self).mounted() == old(self).mounted(),
            final(self).screen() == old(self).screen(),
            final(self).previous_screen() == old(self).previous_screen(),
            final(self).profile_view() == old(self).profile_view(),
            final(self).is_done() == old(self).is_done(),
            final(self).backup_state_spec() == old(self).backup_state_spec(),
    {
        let ghost prev = self.logs();
        self.info_logs.push_back(info);
        proof {
            if prev.len() < NUM_INFO_LOGS {
                assert(final(self).logs() =~= ring_push(prev, info@, NUM_INFO_LOGS as nat));
            } else {
                assert(final(self).logs() =~= ring_push(prev, info@, NUM_INFO_LOGS as nat));
            }
        }
    }

    /// Folds one bus response into the session state, returning the
    /// commands the update provokes (size queries for backup paths the
    /// session has not measured yet).
    ///
    /// A suggestion batch replaces the one on display only when its
    /// generation is newer; batches that arrive out of order are
    /// discarded, and the stored generation never decreases.
    pub fn handle_command(&mut self, msg: CommandResponse) -> (r: Vec<Command>)
        ensures
            final(self).suggestion_generation() >= old(self).suggestion_generation(),
            match msg {
                CommandResponse::SuggestionResults(suggestions, generation) => (if old(self).suggestion_generation() < generation {
                    final(self).suggestions() == suggestions@.map_values(|s: String| s@) && final(self).suggestion_generation() == generation
                } else {
                    final(self).suggestions() == old(self).suggestions() && final(self).suggestion_generation() == old(self).suggestion_generation()
                }),
                CommandResponse::MountResult(selector, mountpoint) => final(self).mounted() == old(self).mounted().push((selector@, mountpoint@)),
                CommandResponse::ProfileUpdated(profile) => final(self).profile_view() == profile@,
                CommandResponse::Info(info) => final(self).logs() == ring_push(
                    old(self).logs(),
                    info@,
                    NUM_INFO_LOGS as nat,
                ),
                _ => true,
            },
    {
        let mut follow_up: Vec<Command> = Vec::new();
        match msg {
            CommandResponse::CreateProgress(progress) => {
                match progress.create_progress {
                    BackupCreationProgress::InProgress {
                        original_size,
                        compressed_size,
                        deduplicated_size,
                        num_files,
                        current_path,
                    } => {
                        let stat = BackupStat::new(
                            num_files,
                            original_size,
                            compressed_size,
                            deduplicated_size,
                        );
                        self.backup_state.record_create_progress(
                            progress.repository.as_str(),
                            current_path,
                            stat,
                        );
                    },
                    BackupCreationProgress::Finished => {
                        self.backup_state.mark_finished(progress.repository);
                    },
                }
            },
            CommandResponse::Info(info) => {
                self.add_info(info);
            },
            CommandResponse::Error(error_message) => {
                self.add_info(error_message);
            },
            CommandResponse::ListArchiveResult(listing) => {
                self.store_listing(listing);
            },
            CommandResponse::SuggestionResults(suggestions, generation) => {
                if self.directory_suggestions_update_num < generation {
                    self.directory_suggestions = suggestions;
                    self.directory_suggestions_update_num = generation;
                }
            },
            CommandResponse::MountResult(selector, mountpoint) => {
                let ghost prev = self.mounted();
                self.currently_mounted_items.push((selector, mountpoint));
                proof {
                    assert(final(self).mounted() =~= prev.push(
                        final(self).mounted().last(),
                    ));
                }
            },
            CommandResponse::ProfileUpdated(profile) => {
                let ghost new_view = profile@;
                self.profile = profile;
                let paths = clone_string_vec(self.profile.backup_paths());
                let mut fresh: Vec<String> = Vec::new();
                let mut i: usize = 0;
                while i < paths.len()
                    decreases paths@.len() - i,
                {
                    if !vec_contains(&self.known_size_paths, paths[i].as_str()) {
                        fresh.push(paths[i].clone());
                    }
                    i = i + 1;
                }
                let mut j: usize = 0;
                while j < fresh.len()
                    invariant
                        self.profile_view() == new_view,
                        self.suggestions() == old(self).suggestions(),
                        self.suggestion_generation() == old(self).suggestion_generation(),
                        self.mounted() == old(self).mounted(),
                    decreases fresh@.len() - j,
                {
                    self.known_size_paths.push(fresh[j].clone());
                    let patterns = clone_string_vec(self.profile.exclude_patterns());
                    follow_up.push(
                        Command::DetermineDirectorySize(fresh[j].clone(), patterns),
                    );
                    j = j + 1;
                }
            },
            CommandResponse::CheckProgress(check) => {
                self.add_info(check.message);
            },
            CommandResponse::CheckComplete(complete) => {
                match complete.error {
                    Some(error) => {
                        self.add_info(error);
                    },
                    None => {},
                }
            },
        }
        follow_up
    }

    fn store_listing(&mut self, listing: RepositoryArchives)
        ensures
            final(self).suggestions() == old(self).suggestions(),
            final(self).suggestion_generation() == old(self).suggestion_generation(),
            final(self).mounted() == old(self).mounted(),
            final(self).logs() == old(self).logs(),
            final(self).profile_view() == old(self).profile_view(),
    {
        let mut i: usize = 0;
        let len = self.list_archives_state.len();
        let mut found: Option<usize> = None;
        loop
            invariant
                i <= len,
                len == self.list_archives_state@.len(),
                found matches Some(k) ==> k < len,
            ensures
                found matches Some(k) ==> k < len,
                len == self.list_archives_state@.len(),
            decreases len - i,
        {
            if i == len {
                break;
            }
            if str_eq(self.list_archives_state[i].0.as_str(), listing.path.as_str()) {
                found = Some(i);
                break;
            }
            i = i + 1;
        }
        let key = listing.path.clone();
        match found {
            Some(k) => {
                self.list_archives_state.set(k, (key, listing));
            },
            None => {
                self.list_archives_state.push((key, listing));
            },
        }
    }

    /// The listing the session holds for one repository, if any arrived.
    pub fn listing_for(&self, repo: &str) -> (r: Option<&RepositoryArchives>) {
        let mut i: usize = 0;
        while i < self.list_archives_state.len()
            decreases self.list_archives_state@.len() - i,
        {
            if str_eq(self.list_archives_state[i].0.as_str(), repo) {
                return Some(&self.list_archives_state[i].1);
            }
            i = i + 1;
        }
        None
    }
}

fn vec_contains(list: &Vec<String>, s: &str) -> (r: bool)
    ensures
        r == (exists|i: int| 0 <= i < list@.len() && (#[trigger] list@[i])@ == s@),
{
    let mut i: usize = 0;
    while i < list.len()
        invariant
            i <= list@.len(),
            forall|j: int| 0 <= j < i ==> (#[trigger] list@[j])@ != s@,
        decreases list@.len() - i,
    {
        if str_eq(list[i].as_str(), s) {
            return true;
        }
        i = i + 1;
    }
    false
}

} // verus!

verus! {

impl TuiModel {
    /// One compact command per active repository, in configuration order.
    pub fn compact_commands(&self) -> (r: Vec<Command>)
        ensures
            r@.len() == crate::profiles::active_repos_of(self.profile_view().repos).len(),
            forall|i: int|
                0 <= i < r@.len() ==> ((#[trigger] r@[i]) matches Command::Compact(rep) && rep@
                    == crate::profiles::active_repos_of(self.profile_view().repos)[i]),
    {
        let active = self.profile.active_repositories();
        let ghost av = crate::profiles::active_repos_of(self.profile_view().repos);
        let mut out: Vec<Command> = Vec::new();
        let mut i: usize = 0;
        while i < active.len()
            invariant
                i <= active.len(),
                active@.map_values(|x: crate::profiles::Repository| x@) == av,
                av.len() == active.len(),
                out@.len() == i,
                forall|j: int|
                    0 <= j < i ==> ((#[trigger] out@[j]) matches Command::Compact(rep) && rep@
                        == av[j]),
            decreases active.len() - i,
        {
            proof {
                assert(av[i as int] == active@[i as int]@);
            }
            out.push(Command::Compact(active[i].duplicate()));
            i = i + 1;
        }
        out
    }

    /// One prune command per active repository, carrying the profile's
    /// retention policy.
    pub fn prune_commands(&self) -> (r: Vec<Command>)
        ensures
            r@.len() == crate::profiles::active_repos_of(self.profile_view().repos).len(),
            forall|i: int|
                0 <= i < r@.len() ==> ((#[trigger] r@[i]) matches Command::Prune(rep, options)
                    && rep@ == crate::profiles::active_repos_of(self.profile_view().repos)[i]
                    && options == self.profile_view().prune_options),
    {
        let active = self.profile.active_repositories();
        let ghost av = crate::profiles::active_repos_of(self.profile_view().repos);
        let options = self.profile.prune_options();
        let mut out: Vec<Command> = Vec::new();
        let mut i: usize = 0;
        while i < active.len()
            invariant
                i <= active.len(),
                active@.map_values(|x: crate::profiles::Repository| x@) == av,
                av.len() == active.len(),
                out@.len() == i,
                options == self.profile_view().prune_options,
                forall|j: int|
                    0 <= j < i ==> ((#[trigger] out@[j]) matches Command::Prune(rep, opts) && rep@
                        == av[j] && opts == options),
            decreases active.len() - i,
        {
            proof {
                assert(av[i as int] == active@[i as int]@);
            }
            out.push(Command::Prune(active[i].duplicate(), options));
            i = i + 1;
        }
        out
    }

    /// One listing command per active repository.
    pub fn list_archives_commands(&self) -> (r: Vec<Command>)
        ensures
            r@.len() == crate::profiles::active_repos_of(self.profile_view().repos).len(),
            forall|i: int|
                0 <= i < r@.len() ==> ((#[trigger] r@[i]) matches Command::ListArchives(rep)
                    && rep@ == crate::profiles::active_repos_of(self.profile_view().repos)[i]),
    {
        let active = self.profile.active_repositories();
        let ghost av = crate::profiles::active_repos_of(self.profile_view().repos);
        let mut out: Vec<Command> = Vec::new();
        let mut i: usize = 0;
        while i < active.len()
            invariant
                i <= active.len(),
                active@.map_values(|x: crate::profiles::Repository| x@) == av,
                av.len() == active.len(),
                out@.len() == i,
                forall|j: int|
                    0 <= j < i ==> ((#[trigger] out@[j]) matches Command::ListArchives(rep)
                        && rep@ == av[j]),
            decreases active.len() - i,
        {
            proof {
                assert(av[i as int] == active@[i as int]@);
            }
            out.push(Command::ListArchives(active[i].duplicate()));
            i = i + 1;
        }
        out
    }

    /// One unmount command per mounted item; the mounted list empties.
    pub fn unmount_all_commands(&mut self) -> (r: Vec<Command>)
        ensures
            final(self).mounted() == Seq::<(Seq<char>, Seq<char>)>::empty(),
            r@.len() == old(self).mounted().len(),
            forall|i: int|
                0 <= i < r@.len() ==> ((#[trigger] r@[i]) matches Command::Unmount(mountpoint)
                    && mountpoint@ == old(self).mounted()[i].1),
            final(self).suggestions() == old(self).suggestions(),
            final(self).suggestion_generation() == old(self).suggestion_generation(),
            final(self).logs() == old(self).logs(),
            final(self).profile_view() == old(self).profile_view(),
    {
        let ghost mv = self.mounted();
        let mut out: Vec<Command> = Vec::new();
        let mut i: usize = 0;
        while i < self.currently_mounted_items.len()
            invariant
                i <= self.currently_mounted_items@.len(),
                mv == self.mounted(),
                mv.len() == self.currently_mounted_items@.len(),
                out@.len() == i,
                forall|j: int|
                    0 <= j < i ==> ((#[trigger] out@[j]) matches Command::Unmount(mountpoint)
                        && mountpoint@ == mv[j].1),
            decreases self.currently_mounted_items@.len() - i,
        {
            proof {
                assert(mv[i as int] == (
                    self.currently_mounted_items@[i as int].0@,
                    self.currently_mounted_items@[i as int].1@,
                ));
            }
            out.push(Command::Unmount(self.currently_mounted_items[i].1.clone()));
            i = i + 1;
        }
        self.currently_mounted_items = Vec::new();
        proof {
            assert(final(self).mounted() =~= Seq::<(Seq<char>, Seq<char>)>::empty());
        }
        out
    }
}

} // verus!
