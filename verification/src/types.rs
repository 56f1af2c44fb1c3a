//! The common vocabulary of results and progress events: archives and
//! their listings, and the normalized progress every engine adapter's
//! native events are converted into.
use vstd::prelude::*;

verus! {

/// One archive (snapshot) in a repository: its name and when it was
/// created, as seconds since the epoch.
pub struct Archive {
    pub name: String,
    pub creation_ts: i64,
}

/// The mathematical shape of an `Archive`.
pub struct ArchiveView {
    pub name: Seq<char>,
    pub creation_ts: int,
}

impl View for Archive {
    type V = ArchiveView;

    open spec fn view(&self) -> ArchiveView {
        ArchiveView { name: self.name@, creation_ts: self.creation_ts as int }
    }
}

impl Archive {
    pub fn new(name: String, creation_ts: i64) -> (r: Self)
        ensures
            r@.name == name@,
            r@.creation_ts == creation_ts,
    {
        Archive { name, creation_ts }
    }

    pub fn duplicate(&self) -> (r: Self)
        ensures
            r@ == self@,
    {
        Archive { name: self.name.clone(), creation_ts: self.creation_ts }
    }
}

/// A listing result: the repository location and its archives, ordered so
/// the most recent archive comes last.
pub struct RepositoryArchives {
    pub path: String,
    pub archives: Vec<Archive>,
}

impl RepositoryArchives {
    pub fn new(path: String, archives: Vec<Archive>) -> (r: Self)
        ensures
            r.path@ == path@,
            r.archives@.map_values(|a: Archive| a@) == archives@.map_values(|a: Archive| a@),
    {
        RepositoryArchives { path, archives }
    }
}

/// Whether the archives are ordered by creation time, oldest first.
pub open spec fn sorted_by_time(archives: Seq<ArchiveView>) -> bool {
    forall|i: int, j: int|
        0 <= i < j < archives.len() ==> (#[trigger] archives[i]).creation_ts <= (
        #[trigger] archives[j]).creation_ts
}

proof fn lemma_to_multiset_insert_mid(s: Seq<ArchiveView>, i: int, x: ArchiveView)
    requires
        0 <= i <= s.len(),
    ensures
        s.insert(i, x).to_multiset() == s.to_multiset().insert(x),
{
    broadcast use vstd::seq_lib::group_to_multiset_ensures;

    let nv = s.insert(i, x);
    assert(nv.remove(i) =~= s);
    assert(nv[i] == x);
    assert(nv.remove(i).to_multiset() =~= nv.to_multiset().remove(nv[i]));
    assert(nv.to_multiset().contains(nv[i])) by {
        assert(nv.contains(nv[i]));
    }
    assert(nv.to_multiset().remove(x).insert(x) =~= nv.to_multiset());
    assert(s.to_multiset().insert(x) =~= nv.to_multiset());
}

/// Sorts archives by creation time, oldest first (the order the borg
/// engine reports, which the listing vocabulary promises): the result is
/// ordered and holds exactly the given archives.
pub fn sort_archives_by_time(archives: Vec<Archive>) -> (r: Vec<Archive>)
    ensures
        sorted_by_time(r@.map_values(|a: Archive| a@)),
        r@.map_values(|a: Archive| a@).to_multiset() == archives@.map_values(
            |a: Archive| a@,
        ).to_multiset(),
        r@.len() == archives@.len(),
{
    broadcast use vstd::seq_lib::group_to_multiset_ensures;

    let ghost av = archives@.map_values(|a: Archive| a@);
    let mut out: Vec<Archive> = Vec::new();
    let mut i: usize = 0;
    proof {
        assert(av.take(0) =~= Seq::<ArchiveView>::empty());
        assert(out@.map_values(|a: Archive| a@) =~= Seq::<ArchiveView>::empty());
        assert(Seq::<ArchiveView>::empty().to_multiset() =~= av.take(0).to_multiset());
    }
    while i < archives.len()
        invariant
            i <= archives.len(),
            av == archives@.map_values(|a: Archive| a@),
            av.len() == archives.len(),
            sorted_by_time(out@.map_values(|a: Archive| a@)),
            out@.map_values(|a: Archive| a@).to_multiset() == av.take(i as int).to_multiset(),
            out@.len() == i,
        decreases archives.len() - i,
    {
        broadcast use vstd::seq_lib::group_to_multiset_ensures;

        let ghost ov = out@.map_values(|a: Archive| a@);
        proof {
            assert(av[i as int] == archives@[i as int]@);
        }
        let item = archives[i].duplicate();
        // find the first position whose timestamp exceeds the item's
        let len = out.len();
        let mut pos: usize = 0;
        loop
            invariant
                pos <= len,
                len == out@.len(),
                ov == out@.map_values(|a: Archive| a@),
                item@ == av[i as int],
                av == archives@.map_values(|a: Archive| a@),
                i < av.len(),
                forall|j: int| 0 <= j < pos ==> (#[trigger] ov[j]).creation_ts <= item@.creation_ts,
            ensures
                pos <= len,
                forall|j: int| 0 <= j < pos ==> (#[trigger] ov[j]).creation_ts <= item@.creation_ts,
                pos < len ==> ov[pos as int].creation_ts > item@.creation_ts,
                ov == out@.map_values(|a: Archive| a@),
                len == out@.len(),
                item@ == av[i as int],
            decreases len - pos,
        {
            if pos == len {
                break;
            }
            proof {
                assert(ov[pos as int] == out@[pos as int]@);
            }
            if out[pos].creation_ts > item.creation_ts {
                break;
            }
            pos = pos + 1;
        }
        out.insert(pos, item);
        proof {
            let nv = out@.map_values(|a: Archive| a@);
            assert(nv =~= ov.insert(pos as int, av[i as int]));
            lemma_to_multiset_insert_mid(ov, pos as int, av[i as int]);
            assert(av.take(i + 1) =~= av.take(i as int).push(av[i as int]));
            assert(av.take(i + 1).to_multiset() =~= av.take(i as int).to_multiset().insert(
                av[i as int],
            ));
            assert(nv.to_multiset() =~= av.take(i + 1).to_multiset());
            assert forall|a: int, b: int| 0 <= a < b < nv.len() implies (
            #[trigger] nv[a]).creation_ts <= (#[trigger] nv[b]).creation_ts by {
                if b < pos {
                    assert(nv[a] == ov[a] && nv[b] == ov[b]);
                } else if a < pos && b == pos {
                    assert(nv[a] == ov[a]);
                } else if a < pos && b > pos {
                    assert(nv[a] == ov[a] && nv[b] == ov[b - 1]);
                    if a <= b - 1 - 1 {
                    }
                } else if a == pos {
                    assert(nv[b] == ov[b - 1]);
                    assert(pos <= b - 1 < ov.len());
                    if b - 1 == pos {
                        assert(ov[pos as int].creation_ts > av[i as int].creation_ts);
                    } else {
                        assert(ov[pos as int].creation_ts > av[i as int].creation_ts);
                        assert(ov[pos as int].creation_ts <= ov[b - 1].creation_ts);
                    }
                } else {
                    assert(nv[a] == ov[a - 1] && nv[b] == ov[b - 1]);
                }
            }
        }
        i = i + 1;
    }
    proof {
        assert(av.take(av.len() as int) =~= av);
    }
    out
}

/// The normalized backup progress every adapter's native events are
/// converted into.
pub enum BackupCreationProgress {
    InProgress {
        original_size: u64,
        compressed_size: u64,
        deduplicated_size: u64,
        num_files: u64,
        current_path: String,
    },
    Finished,
}

/// One normalized backup-progress event, tagged with the repository that
/// produced it.
pub struct BackupCreateProgress {
    pub repository: String,
    pub create_progress: BackupCreationProgress,
}

impl BackupCreateProgress {
    pub fn new(repository: String, create_progress: BackupCreationProgress) -> (r: Self)
        ensures
            r.repository@ == repository@,
            r.create_progress == create_progress,
    {
        BackupCreateProgress { repository, create_progress }
    }

    /// The terminal event of one repository's backup.
    pub fn finished(repository: String) -> (r: Self)
        ensures
            r.repository@ == repository@,
            r.create_progress is Finished,
    {
        BackupCreateProgress { repository, create_progress: BackupCreationProgress::Finished }
    }
}

/// A free-form diagnostic line from a check, compact or prune run.
pub struct CheckProgress {
    pub repo_location: String,
    pub message: String,
}

impl CheckProgress {
    pub fn new(repo_location: String, message: String) -> (r: Self)
        ensures
            r.repo_location@ == repo_location@,
            r.message@ == message@,
    {
        CheckProgress { repo_location, message }
    }
}

/// The terminal event of one repository's check or repair: `error` holds
/// the diagnostic when the repository is unhealthy.
pub struct CheckComplete {
    pub repo_location: String,
    pub error: Option<String>,
}

impl CheckComplete {
    pub fn new(repo_location: String, error: Option<String>) -> (r: Self)
        ensures
            r.repo_location@ == repo_location@,
            r.error == error,
    {
        CheckComplete { repo_location, error }
    }
}

} // verus!
