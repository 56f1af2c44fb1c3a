//! The configuration data model: passphrases, encryption descriptors,
//! engine kinds and their option variants, repositories (in the current and
//! the historical on-disk shape), retention policy, and profiles.
use vstd::prelude::*;

use crate::strutil::str_eq;

verus! {

/// The errors this library reports. Variants are field-free so callers can
/// compare them directly; the inputs that caused one travel alongside it.
#[derive(Clone, Copy, Debug, PartialEq, Eq, Structural)]
pub enum BorgError {
    /// Engine options of one kind were requested of a repository of another.
    NonBorgOptions,
    NonRusticOptions,
    NonResticOptions,
    /// A repository kind string that names no known engine.
    UnknownRepositoryKind,
    /// A backup path was added twice.
    PathAlreadyExists,
    /// A backup path whose metadata could not be read.
    PathDoesNotExist,
    /// A backup path that is relative or contains symlink components.
    PathNotCanonical,
    /// A repository location added twice to one profile.
    RepositoryAlreadyExists,
    /// A repository location that the profile does not hold.
    RepositoryNotFound,
    /// A passphrase was required but could not be resolved.
    PassphraseMissing,
    /// The credential store failed to produce or accept a secret.
    KeyringFailure,
    /// A keyfile could not be read.
    KeyfileUnreadable,
    /// An exclude pattern that is no valid glob.
    InvalidPattern,
    /// A profile or repository document that fits no known shape.
    ConfigMalformed,
    /// An operation was attempted on a disabled repository.
    RepositoryDisabled,
}

/// A secret. Kept in its own type so it is never rendered by accident;
/// callers reach the value only through `inner` and `inner_ref`.
pub struct Passphrase {
    secret: String,
}

impl View for Passphrase {
    type V = Seq<char>;

    closed spec fn view(&self) -> Seq<char> {
        self.secret@
    }
}

impl Passphrase {
    pub fn new(value: String) -> (r: Self)
        ensures
            r@ == value@,
    {
        Passphrase { secret: value }
    }

    /// A copy of the secret.
    pub fn inner(&self) -> (r: String)
        ensures
            r@ == self@,
    {
        self.secret.clone()
    }

    /// The secret, borrowed.
    pub fn inner_ref(&self) -> (r: &str)
        ensures
            r@ == self@,
    {
        self.secret.as_str()
    }

    pub fn duplicate(&self) -> (r: Self)
        ensures
            r@ == self@,
    {
        Passphrase { secret: self.secret.clone() }
    }
}

/// Where a repository's passphrase lives.
pub enum Encryption {
    /// The repository is not encrypted.
    NoEncryption,
    /// The passphrase sits in the profile document itself, in cleartext.
    /// Discouraged, but supported.
    Raw(Passphrase),
    /// The passphrase is resolved from a system credential store, keyed by
    /// the repository location.
    Keyring,
    /// The passphrase is read (and trimmed) from the file at this path.
    Keyfile(String),
}

/// The mathematical shape of an `Encryption` value.
pub enum EncryptionView {
    NoEncryption,
    Raw(Seq<char>),
    Keyring,
    Keyfile(Seq<char>),
}

impl View for Encryption {
    type V = EncryptionView;

    open spec fn view(&self) -> EncryptionView {
        match self {
            Encryption::NoEncryption => EncryptionView::NoEncryption,
            Encryption::Raw(p) => EncryptionView::Raw(p@),
            Encryption::Keyring => EncryptionView::Keyring,
            Encryption::Keyfile(path) => EncryptionView::Keyfile(path@),
        }
    }
}

impl Encryption {
    pub fn duplicate(&self) -> (r: Self)
        ensures
            r@ == self@,
    {
        match self {
            Encryption::NoEncryption => Encryption::NoEncryption,
            Encryption::Raw(p) => Encryption::Raw(p.duplicate()),
            Encryption::Keyring => Encryption::Keyring,
            Encryption::Keyfile(path) => Encryption::Keyfile(path.clone()),
        }
    }
}

/// The engines a repository can be serviced by. Which adapter serves a
/// repository is a pure function of this kind.
#[derive(Clone, Copy, Debug, PartialEq, Eq, Structural)]
pub enum RepositoryKind {
    Borg,
    Rustic,
    Restic,
}

/// The kind a repository has when its configuration names none.
pub fn default_repository_kind() -> (r: RepositoryKind)
    ensures
        r == RepositoryKind::Borg,
{
    RepositoryKind::Borg
}

impl RepositoryKind {
    /// Parses an engine name; accepts the lower-case and the capitalized
    /// spelling of each kind.
    pub fn parse(s: &str) -> (r: Result<RepositoryKind, BorgError>)
        ensures
            match r {
                Ok(k) => (k == RepositoryKind::Borg <==> (s@ == "borg"@ || s@ == "Borg"@)) && (k
                    == RepositoryKind::Rustic <==> (s@ == "rustic"@ || s@ == "Rustic"@)) && (k
                    == RepositoryKind::Restic <==> (s@ == "restic"@ || s@ == "Restic"@)),
                Err(e) => e == BorgError::UnknownRepositoryKind && s@ != "borg"@ && s@ != "Borg"@
                    && s@ != "rustic"@ && s@ != "Rustic"@ && s@ != "restic"@ && s@ != "Restic"@,
            },
    {
        proof {
            reveal_strlit("borg");
            reveal_strlit("Borg");
            reveal_strlit("rustic");
            reveal_strlit("Rustic");
            reveal_strlit("restic");
            reveal_strlit("Restic");
            assert("borg"@.len() == 4);
            assert("Borg"@.len() == 4);
            assert("rustic"@.len() == 6);
            assert("Rustic"@.len() == 6);
            assert("restic"@.len() == 6);
            assert("Restic"@.len() == 6);
            assert("rustic"@[1] == 'u' && "restic"@[1] == 'e');
            assert("Rustic"@[1] == 'u' && "Restic"@[1] == 'e');
            assert("rustic"@[0] == 'r' && "Rustic"@[0] == 'R');
            assert("restic"@[0] == 'r' && "Restic"@[0] == 'R');
        }
        if str_eq(s, "borg") || str_eq(s, "Borg") {
            Ok(RepositoryKind::Borg)
        } else if str_eq(s, "rustic") || str_eq(s, "Rustic") {
            Ok(RepositoryKind::Rustic)
        } else if str_eq(s, "restic") || str_eq(s, "Restic") {
            Ok(RepositoryKind::Restic)
        } else {
            Err(BorgError::UnknownRepositoryKind)
        }
    }

    /// The lower-case engine name.
    pub fn name(&self) -> (r: &'static str)
        ensures
            self == RepositoryKind::Borg ==> r@ == "borg"@,
            self == RepositoryKind::Rustic ==> r@ == "rustic"@,
            self == RepositoryKind::Restic ==> r@ == "restic"@,
    {
        match self {
            RepositoryKind::Borg => "borg",
            RepositoryKind::Rustic => "rustic",
            RepositoryKind::Restic => "restic",
        }
    }
}

/// Options of a repository serviced by the borg engine.
#[derive(Debug)]
pub struct BorgV1Options {
    /// The remote-shell command used when connecting.
    pub rsh: Option<String>,
    /// The path of the engine binary on the remote side.
    pub remote_path: Option<String>,
}

/// The mathematical shape of `BorgV1Options`.
pub struct BorgV1OptionsView {
    pub rsh: Option<Seq<char>>,
    pub remote_path: Option<Seq<char>>,
}

impl View for BorgV1Options {
    type V = BorgV1OptionsView;

    open spec fn view(&self) -> BorgV1OptionsView {
        BorgV1OptionsView {
            rsh: match self.rsh {
                Some(ref s) => Some(s@),
                None => None,
            },
            remote_path: match self.remote_path {
                Some(ref s) => Some(s@),
                None => None,
            },
        }
    }
}

pub fn clone_opt_string(o: &Option<String>) -> (r: Option<String>)
    ensures
        match o {
            Some(s) => r matches Some(c) && c@ == s@,
            None => r is None,
        },
{
    match o {
        Some(s) => Some(s.clone()),
        None => None,
    }
}

impl BorgV1Options {
    pub fn duplicate(&self) -> (r: Self)
        ensures
            r@ == self@,
    {
        let r = BorgV1Options {
            rsh: clone_opt_string(&self.rsh),
            remote_path: clone_opt_string(&self.remote_path),
        };
        proof {
            assert(r@ == self@);
        }
        r
    }
}

/// Builds `BorgV1Options` a field at a time.
pub struct BorgV1OptionsBuilder {
    rsh: Option<String>,
    remote_path: Option<String>,
}

impl BorgV1OptionsBuilder {
    pub fn new() -> (r: Self)
        ensures
            r.rsh_spec() is None,
            r.remote_path_spec() is None,
    {
        BorgV1OptionsBuilder { rsh: None, remote_path: None }
    }

    pub closed spec fn rsh_spec(&self) -> Option<Seq<char>> {
        match self.rsh {
            Some(ref s) => Some(s@),
            None => None,
        }
    }

    pub closed spec fn remote_path_spec(&self) -> Option<Seq<char>> {
        match self.remote_path {
            Some(ref s) => Some(s@),
            None => None,
        }
    }

    pub fn rsh(self, rsh: Option<String>) -> (r: Self)
        ensures
            r.rsh_spec() == match rsh {
                Some(s) => Some(s@),
                None => None::<Seq<char>>,
            },
            r.remote_path_spec() == self.remote_path_spec(),
    {
        BorgV1OptionsBuilder { rsh, remote_path: self.remote_path }
    }

    pub fn remote_path(self, remote_path: Option<String>) -> (r: Self)
        ensures
            r.remote_path_spec() == match remote_path {
                Some(s) => Some(s@),
                None => None::<Seq<char>>,
            },
            r.rsh_spec() == self.rsh_spec(),
    {
        BorgV1OptionsBuilder { rsh: self.rsh, remote_path }
    }

    pub fn build(self) -> (r: BorgV1Options)
        ensures
            r@ == (BorgV1OptionsView { rsh: self.rsh_spec(), remote_path: self.remote_path_spec() }),
    {
        BorgV1Options { rsh: self.rsh, remote_path: self.remote_path }
    }
}

/// Options of a repository serviced by the rustic engine. The engine needs
/// no knobs beyond the location.
#[derive(Clone, Copy, Debug, PartialEq, Eq, Structural)]
pub struct RusticOptions {}

/// Options of a repository serviced by the restic engine.
#[derive(Clone, Copy, Debug, PartialEq, Eq, Structural)]
pub struct ResticOptions {}

/// The engine-specific options of one repository, tagged by engine kind.
pub enum RepositoryOptions {
    BorgV1(BorgV1Options),
    Rustic(RusticOptions),
    Restic(ResticOptions),
}

/// The mathematical shape of `RepositoryOptions`.
pub enum RepositoryOptionsView {
    BorgV1(BorgV1OptionsView),
    Rustic,
    Restic,
}

impl View for RepositoryOptions {
    type V = RepositoryOptionsView;

    open spec fn view(&self) -> RepositoryOptionsView {
        match self {
            RepositoryOptions::BorgV1(o) => RepositoryOptionsView::BorgV1(o@),
            RepositoryOptions::Rustic(_) => RepositoryOptionsView::Rustic,
            RepositoryOptions::Restic(_) => RepositoryOptionsView::Restic,
        }
    }
}

impl RepositoryOptions {
    pub fn duplicate(&self) -> (r: Self)
        ensures
            r@ == self@,
    {
        match self {
            RepositoryOptions::BorgV1(o) => RepositoryOptions::BorgV1(o.duplicate()),
            RepositoryOptions::Rustic(o) => RepositoryOptions::Rustic(*o),
            RepositoryOptions::Restic(o) => RepositoryOptions::Restic(*o),
        }
    }

    /// The engine kind these options belong to.
    pub fn kind(&self) -> (r: RepositoryKind)
        ensures
            r == RepositoryKind::Borg <==> self@ is BorgV1,
            r == RepositoryKind::Rustic <==> self@ is Rustic,
            r == RepositoryKind::Restic <==> self@ is Restic,
    {
        match self {
            RepositoryOptions::BorgV1(_) => RepositoryKind::Borg,
            RepositoryOptions::Rustic(_) => RepositoryKind::Rustic,
            RepositoryOptions::Restic(_) => RepositoryKind::Restic,
        }
    }

    /// The borg options, exactly when this repository is a borg one.
    pub fn borg_options(&self) -> (r: Result<BorgV1Options, BorgError>)
        ensures
            match r {
                Ok(o) => self@ == RepositoryOptionsView::BorgV1(o@),
                Err(e) => !(self@ is BorgV1) && e == BorgError::NonBorgOptions,
            },
    {
        match self {
            RepositoryOptions::BorgV1(o) => Ok(o.duplicate()),
            _ => Err(BorgError::NonBorgOptions),
        }
    }

    /// The rustic options, exactly when this repository is a rustic one.
    pub fn rustic_options(&self) -> (r: Result<RusticOptions, BorgError>)
        ensures
            match r {
                Ok(_) => self@ is Rustic,
                Err(e) => !(self@ is Rustic) && e == BorgError::NonRusticOptions,
            },
    {
        match self {
            RepositoryOptions::Rustic(o) => Ok(*o),
            _ => Err(BorgError::NonRusticOptions),
        }
    }

    /// The restic options, exactly when this repository is a restic one.
    pub fn restic_options(&self) -> (r: Result<ResticOptions, BorgError>)
        ensures
            match r {
                Ok(_) => self@ is Restic,
                Err(e) => !(self@ is Restic) && e == BorgError::NonResticOptions,
            },
    {
        match self {
            RepositoryOptions::Restic(o) => Ok(*o),
            _ => Err(BorgError::NonResticOptions),
        }
    }
}

/// The retention policy: how many daily, weekly, monthly and yearly
/// archives to keep. Every count is at least one.
#[derive(Clone, Copy, Debug, PartialEq, Eq, Structural)]
pub struct PruneOptions {
    pub keep_daily: u16,
    pub keep_weekly: u16,
    pub keep_monthly: u16,
    pub keep_yearly: u16,
}

impl PruneOptions {
    /// Every retention count is positive.
    pub open spec fn wf(&self) -> bool {
        self.keep_daily >= 1 && self.keep_weekly >= 1 && self.keep_monthly >= 1
            && self.keep_yearly >= 1
    }

    pub fn new(keep_daily: u16, keep_weekly: u16, keep_monthly: u16, keep_yearly: u16) -> (r:
        Result<PruneOptions, BorgError>)
        ensures
            match r {
                Ok(o) => o == (PruneOptions { keep_daily, keep_weekly, keep_monthly, keep_yearly })
                    && o.wf(),
                Err(_) => keep_daily == 0 || keep_weekly == 0 || keep_monthly == 0 || keep_yearly
                    == 0,
            },
    {
        if keep_daily >= 1 && keep_weekly >= 1 && keep_monthly >= 1 && keep_yearly >= 1 {
            Ok(PruneOptions { keep_daily, keep_weekly, keep_monthly, keep_yearly })
        } else {
            Err(BorgError::ConfigMalformed)
        }
    }
}

impl Default for PruneOptions {
    /// The default retention favors keeping a lot of history.
    fn default() -> (r: Self)
        ensures
            r == (PruneOptions {
                keep_daily: 64u16,
                keep_weekly: 128u16,
                keep_monthly: 64u16,
                keep_yearly: 32u16,
            }),
            r.wf(),
    {
        PruneOptions { keep_daily: 64, keep_weekly: 128, keep_monthly: 64, keep_yearly: 32 }
    }
}

} // verus!

verus! {

/// The historical flat on-disk shape of a repository: the remote-shell
/// command sits beside the path, and the engine is named by a `kind` field.
pub struct RepositoryV1 {
    pub path: String,
    /// Remote-shell command to use when connecting.
    pub rsh: Option<String>,
    pub encryption: Encryption,
    pub disabled: bool,
    pub kind: RepositoryKind,
}

/// The mathematical shape of a `RepositoryV1`.
pub struct RepositoryV1View {
    pub path: Seq<char>,
    pub rsh: Option<Seq<char>>,
    pub encryption: EncryptionView,
    pub disabled: bool,
    pub kind: RepositoryKind,
}

impl View for RepositoryV1 {
    type V = RepositoryV1View;

    open spec fn view(&self) -> RepositoryV1View {
        RepositoryV1View {
            path: self.path@,
            rsh: match self.rsh {
                Some(ref s) => Some(s@),
                None => None,
            },
            encryption: self.encryption@,
            disabled: self.disabled,
            kind: self.kind,
        }
    }
}

/// One backup destination: a location, an encryption descriptor, a
/// disabled flag, and the options of the engine that services it.
///
/// The exclusive-access lock the coordination layer pairs with each
/// repository is shared, process-lifetime state, not configuration; it
/// lives in `coordination` and is keyed by this path.
pub struct Repository {
    pub path: String,
    pub encryption: Encryption,
    pub disabled: bool,
    pub config: RepositoryOptions,
}

/// The mathematical shape of a `Repository`.
pub struct RepositoryView {
    pub path: Seq<char>,
    pub encryption: EncryptionView,
    pub disabled: bool,
    pub config: RepositoryOptionsView,
}

impl View for Repository {
    type V = RepositoryView;

    open spec fn view(&self) -> RepositoryView {
        RepositoryView {
            path: self.path@,
            encryption: self.encryption@,
            disabled: self.disabled,
            config: self.config@,
        }
    }
}

/// The engine options a historical record's `kind` and `rsh` fields
/// resolve to.
pub open spec fn migrated_options(kind: RepositoryKind, rsh: Option<Seq<char>>) -> RepositoryOptionsView {
    match kind {
        RepositoryKind::Borg => RepositoryOptionsView::BorgV1(
            BorgV1OptionsView { rsh, remote_path: None },
        ),
        RepositoryKind::Rustic => RepositoryOptionsView::Rustic,
        RepositoryKind::Restic => RepositoryOptionsView::Restic,
    }
}

/// What migrating a historical record to the current shape yields.
pub open spec fn migrate_v1(v: RepositoryV1View) -> RepositoryView {
    RepositoryView {
        path: v.path,
        encryption: v.encryption,
        disabled: v.disabled,
        config: migrated_options(v.kind, v.rsh),
    }
}

/// Law: decoding the historical flat shape and the current nested shape
/// for equivalent inputs (same path, same disabled flag, and engine
/// options that resolve the same) yields repositories identical in path,
/// disabled flag and engine options.
pub proof fn lemma_migration_equivalence(v1: RepositoryV1View, v2: RepositoryView)
    requires
        v2.path == v1.path,
        v2.disabled == v1.disabled,
        v2.config == migrated_options(v1.kind, v1.rsh),
    ensures
        migrate_v1(v1).path == v2.path,
        migrate_v1(v1).disabled == v2.disabled,
        migrate_v1(v1).config == v2.config,
{
}

impl RepositoryV1 {
    /// Migrates the historical flat record to the current nested shape.
    /// The migration is pure and loss-free for the fields both shapes
    /// share.
    pub fn to_latest(&self) -> (r: Repository)
        ensures
            r@ == migrate_v1(self@),
    {
        let config = match self.kind {
            RepositoryKind::Borg => RepositoryOptions::BorgV1(
                BorgV1OptionsBuilder::new().rsh(clone_opt_string(&self.rsh)).build(),
            ),
            RepositoryKind::Rustic => RepositoryOptions::Rustic(RusticOptions {  }),
            RepositoryKind::Restic => RepositoryOptions::Restic(ResticOptions {  }),
        };
        let r = Repository {
            path: self.path.clone(),
            encryption: self.encryption.duplicate(),
            disabled: self.disabled,
            config,
        };
        proof {
            assert(r@ == migrate_v1(self@));
        }
        r
    }
}

impl Repository {
    /// A fresh, enabled repository.
    pub fn new(path: String, encryption: Encryption, config: RepositoryOptions) -> (r: Self)
        ensures
            r@ == (RepositoryView {
                path: path@,
                encryption: encryption@,
                disabled: false,
                config: config@,
            }),
    {
        Repository { path, encryption, disabled: false, config }
    }

    /// A value-identical copy. (Repositories are value-semantic
    /// configuration; sharing of lock state is the coordination layer's
    /// business, keyed by path.)
    pub fn duplicate(&self) -> (r: Self)
        ensures
            r@ == self@,
    {
        Repository {
            path: self.path.clone(),
            encryption: self.encryption.duplicate(),
            disabled: self.disabled,
            config: self.config.duplicate(),
        }
    }

    /// The current shape is already the latest: migration is the identity.
    pub fn to_latest(&self) -> (r: Repository)
        ensures
            r@ == self@,
    {
        self.duplicate()
    }

    /// If true, the repository is excluded from every operation but stays
    /// in the configuration.
    pub fn disabled(&self) -> (r: bool)
        ensures
            r == self@.disabled,
    {
        self.disabled
    }

    pub fn path(&self) -> (r: String)
        ensures
            r@ == self@.path,
    {
        self.path.clone()
    }

    pub fn path_ref(&self) -> (r: &str)
        ensures
            r@ == self@.path,
    {
        self.path.as_str()
    }

    pub fn borg_options(&self) -> (r: Result<BorgV1Options, BorgError>)
        ensures
            match r {
                Ok(o) => self@.config == RepositoryOptionsView::BorgV1(o@),
                Err(e) => !(self@.config is BorgV1) && e == BorgError::NonBorgOptions,
            },
    {
        self.config.borg_options()
    }

    pub fn rustic_options(&self) -> (r: Result<RusticOptions, BorgError>)
        ensures
            match r {
                Ok(_) => self@.config is Rustic,
                Err(e) => !(self@.config is Rustic) && e == BorgError::NonRusticOptions,
            },
    {
        self.config.rustic_options()
    }

    pub fn restic_options(&self) -> (r: Result<ResticOptions, BorgError>)
        ensures
            match r {
                Ok(_) => self@.config is Restic,
                Err(e) => !(self@.config is Restic) && e == BorgError::NonResticOptions,
            },
    {
        self.config.restic_options()
    }

    /// Which engine kind services this repository: a pure function of its
    /// options variant. The adapter table in the application dispatches on
    /// this.
    pub fn kind(&self) -> (r: RepositoryKind)
        ensures
            r == RepositoryKind::Borg <==> self@.config is BorgV1,
            r == RepositoryKind::Rustic <==> self@.config is Rustic,
            r == RepositoryKind::Restic <==> self@.config is Restic,
    {
        self.config.kind()
    }

    /// The engine's display name, capitalized.
    pub fn repo_kind_name(&self) -> (r: &'static str)
        ensures
            self@.config is BorgV1 ==> r@ == "Borg"@,
            self@.config is Rustic ==> r@ == "Rustic"@,
            self@.config is Restic ==> r@ == "Restic"@,
    {
        match self.config {
            RepositoryOptions::BorgV1(_) => "Borg",
            RepositoryOptions::Rustic(_) => "Rustic",
            RepositoryOptions::Restic(_) => "Restic",
        }
    }
}

} // verus!

verus! {

/// An in-memory mutation of a profile, applied by the dispatch loop and
/// then persisted.
pub enum ProfileOperation {
    AddBackupPath(String),
    RemoveBackupPath(String),
}

/// The timeout a profile gets when its configuration names none.
pub fn default_action_timeout_seconds() -> (r: u64)
    ensures
        r == 30,
{
    30
}

/// Whether cache directories are excluded when the configuration does not
/// say.
pub fn default_exclude_caches() -> (r: bool)
    ensures
        r == true,
{
    true
}

/// A named backup unit: ordered backup source paths, exclude patterns, a
/// retention policy, an operation timeout, and the destination
/// repositories.
pub struct Profile {
    name: String,
    backup_paths: Vec<String>,
    exclude_patterns: Vec<String>,
    exclude_caches: bool,
    prune_options: PruneOptions,
    action_timeout_seconds: u64,
    repos: Vec<Repository>,
}

/// The mathematical shape of a `Profile`.
pub struct ProfileView {
    pub name: Seq<char>,
    pub backup_paths: Seq<Seq<char>>,
    pub exclude_patterns: Seq<Seq<char>>,
    pub exclude_caches: bool,
    pub prune_options: PruneOptions,
    pub action_timeout_seconds: u64,
    pub repos: Seq<RepositoryView>,
}

impl View for Profile {
    type V = ProfileView;

    closed spec fn view(&self) -> ProfileView {
        ProfileView {
            name: self.name@,
            backup_paths: self.backup_paths@.map_values(|s: String| s@),
            exclude_patterns: self.exclude_patterns@.map_values(|s: String| s@),
            exclude_caches: self.exclude_caches,
            prune_options: self.prune_options,
            action_timeout_seconds: self.action_timeout_seconds,
            repos: self.repos@.map_values(|r: Repository| r@),
        }
    }
}

/// The repositories of `repos` that take part in operations: the ones not
/// disabled, in configuration order.
pub open spec fn active_repos_of(repos: Seq<RepositoryView>) -> Seq<RepositoryView> {
    repos.filter(|r: RepositoryView| !r.disabled)
}

impl Profile {
    /// Invariant: backup paths are pairwise distinct, and the retention
    /// policy is well formed.
    pub open spec fn wf(&self) -> bool {
        (forall|i: int, j: int|
            0 <= i < j < self@.backup_paths.len() ==> self@.backup_paths[i]
                != self@.backup_paths[j]) && self@.prune_options.wf()
    }

    /// A fresh profile with no paths and no repositories, carrying the
    /// defaults: no exclude patterns, caches excluded, default retention,
    /// a thirty-second action timeout.
    pub fn blank(name: &str) -> (r: Self)
        ensures
            r@.name == name@,
            r@.backup_paths == Seq::<Seq<char>>::empty(),
            r@.exclude_patterns == Seq::<Seq<char>>::empty(),
            r@.exclude_caches == true,
            r@.prune_options == (PruneOptions {
                keep_daily: 64u16,
                keep_weekly: 128u16,
                keep_monthly: 64u16,
                keep_yearly: 32u16,
            }),
            r@.action_timeout_seconds == 30,
            r@.repos == Seq::<RepositoryView>::empty(),
            r.wf(),
    {
        let r = Profile {
            name: name.to_owned(),
            backup_paths: Vec::new(),
            exclude_patterns: Vec::new(),
            exclude_caches: default_exclude_caches(),
            prune_options: PruneOptions::default(),
            action_timeout_seconds: default_action_timeout_seconds(),
            repos: Vec::new(),
        };
        proof {
            assert(r@.backup_paths =~= Seq::<Seq<char>>::empty());
            assert(r@.exclude_patterns =~= Seq::<Seq<char>>::empty());
            assert(r@.repos =~= Seq::<RepositoryView>::empty());
        }
        r
    }

    /// Assembles a profile from decoded parts. Used by the configuration
    /// decoder; the caller vouches for path uniqueness by checking
    /// `add_backup_path`-style invariants or decoding a document this
    /// library wrote.
    pub fn assemble(
        name: String,
        backup_paths: Vec<String>,
        exclude_patterns: Vec<String>,
        exclude_caches: bool,
        prune_options: PruneOptions,
        action_timeout_seconds: u64,
        repos: Vec<Repository>,
    ) -> (r: Self)
        ensures
            r@.name == name@,
            r@.backup_paths == backup_paths@.map_values(|s: String| s@),
            r@.exclude_patterns == exclude_patterns@.map_values(|s: String| s@),
            r@.exclude_caches == exclude_caches,
            r@.prune_options == prune_options,
            r@.action_timeout_seconds == action_timeout_seconds,
            r@.repos == repos@.map_values(|x: Repository| x@),
    {
        Profile {
            name,
            backup_paths,
            exclude_patterns,
            exclude_caches,
            prune_options,
            action_timeout_seconds,
            repos,
        }
    }

    pub fn name(&self) -> (r: &str)
        ensures
            r@ == self@.name,
    {
        self.name.as_str()
    }

    pub fn repositories(&self) -> (r: &Vec<Repository>)
        ensures
            r@.map_values(|x: Repository| x@) == self@.repos,
    {
        &self.repos
    }

    pub fn backup_paths(&self) -> (r: &Vec<String>)
        ensures
            r@.map_values(|s: String| s@) == self@.backup_paths,
    {
        &self.backup_paths
    }

    pub fn exclude_patterns(&self) -> (r: &Vec<String>)
        ensures
            r@.map_values(|s: String| s@) == self@.exclude_patterns,
    {
        &self.exclude_patterns
    }

    pub fn exclude_caches(&self) -> (r: bool)
        ensures
            r == self@.exclude_caches,
    {
        self.exclude_caches
    }

    pub fn prune_options(&self) -> (r: PruneOptions)
        ensures
            r == self@.prune_options,
    {
        self.prune_options
    }

    pub fn action_timeout_seconds(&self) -> (r: u64)
        ensures
            r == self@.action_timeout_seconds,
    {
        self.action_timeout_seconds
    }

    pub fn num_repos(&self) -> (r: usize)
        ensures
            r == self@.repos.len(),
    {
        self.repos.len()
    }

    /// The repositories operations fan out over: every one not disabled,
    /// in configuration order.
    pub fn active_repositories(&self) -> (r: Vec<Repository>)
        ensures
            r@.map_values(|x: Repository| x@) == active_repos_of(self@.repos),
    {
        let ghost pred = |rv: RepositoryView| !rv.disabled;
        let mut out: Vec<Repository> = Vec::new();
        let ghost vs = self@.repos;
        let mut i: usize = 0;
        proof {
            assert(vs.take(0) =~= Seq::<RepositoryView>::empty());
            assert(out@.map_values(|x: Repository| x@) =~= Seq::<RepositoryView>::empty());
            reveal(Seq::filter);
        }
        while i < self.repos.len()
            invariant
                i <= self.repos.len(),
                vs == self@.repos,
                vs.len() == self.repos.len(),
                out@.map_values(|x: Repository| x@) == vs.take(i as int).filter(
                    |rv: RepositoryView| !rv.disabled,
                ),
            decreases self.repos.len() - i,
        {
            let ghost prev = out@.map_values(|x: Repository| x@);
            proof {
                assert(vs[i as int] == self.repos@[i as int]@);
            }
            if !self.repos[i].disabled {
                let dup = self.repos[i].duplicate();
                out.push(dup);
                proof {
                    assert(out@.map_values(|x: Repository| x@) =~= prev.push(vs[i as int]));
                }
            }
            proof {
                assert(vs.take(i + 1) =~= vs.take(i as int) + seq![vs[i as int]]);
                Seq::<RepositoryView>::filter_distributes_over_add(
                    vs.take(i as int),
                    seq![vs[i as int]],
                    |rv: RepositoryView| !rv.disabled,
                );
                reveal_with_fuel(Seq::filter, 3);
                if !vs[i as int].disabled {
                    assert(seq![vs[i as int]].filter(|rv: RepositoryView| !rv.disabled)
                        =~= seq![vs[i as int]]);
                    assert(out@.map_values(|x: Repository| x@) =~= vs.take(i + 1).filter(
                        |rv: RepositoryView| !rv.disabled,
                    ));
                } else {
                    assert(seq![vs[i as int]].filter(|rv: RepositoryView| !rv.disabled)
                        =~= Seq::<RepositoryView>::empty());
                    assert(out@.map_values(|x: Repository| x@) =~= vs.take(i + 1).filter(
                        |rv: RepositoryView| !rv.disabled,
                    ));
                }
            }
            i = i + 1;
        }
        proof {
            assert(vs.take(vs.len() as int) =~= vs);
        }
        out
    }

    /// How many repositories take part in operations.
    pub fn num_active_repos(&self) -> (r: usize)
        ensures
            r == active_repos_of(self@.repos).len(),
    {
        self.active_repositories().len()
    }

    /// How many repositories take part in operations.
    pub fn num_active_repositories(&self) -> (r: usize)
        ensures
            r == active_repos_of(self@.repos).len(),
    {
        self.active_repositories().len()
    }

    /// Whether some repository of this profile sits at `path`.
    pub fn has_repository(&self, path: &str) -> (r: bool)
        ensures
            r == exists|i: int|
                0 <= i < self@.repos.len() && (#[trigger] self@.repos[i]).path == path@,
    {
        let mut i: usize = 0;
        while i < self.repos.len()
            invariant
                i <= self.repos.len(),
                self@.repos.len() == self.repos.len(),
                forall|j: int| 0 <= j < i ==> (#[trigger] self@.repos[j]).path != path@,
            decreases self.repos.len() - i,
        {
            proof {
                assert(self@.repos[i as int] == self.repos@[i as int]@);
            }
            if str_eq(self.repos[i].path.as_str(), path) {
                return true;
            }
            i = i + 1;
        }
        false
    }

    /// Appends a repository to the profile.
    pub fn add_repository(&mut self, repo: Repository)
        ensures
            final(self)@.repos == old(self)@.repos.push(repo@),
            final(self)@.name == old(self)@.name,
            final(self)@.backup_paths == old(self)@.backup_paths,
            final(self)@.exclude_patterns == old(self)@.exclude_patterns,
            final(self)@.exclude_caches == old(self)@.exclude_caches,
            final(self)@.prune_options == old(self)@.prune_options,
            final(self)@.action_timeout_seconds == old(self)@.action_timeout_seconds,
            old(self).wf() ==> final(self).wf(),
    {
        self.repos.push(repo);
        proof {
            assert(final(self)@.repos =~= old(self)@.repos.push(repo@));
            assert(final(self)@.backup_paths =~= old(self)@.backup_paths);
            assert(final(self)@.exclude_patterns =~= old(self)@.exclude_patterns);
        }
    }
}

} // verus!

verus! {

impl Profile {
    /// Finds the active repository a `repository::archive` mount selector
    /// names: the first one whose path equals the part before `::` (or the
    /// whole selector when no `::` occurs).
    pub fn find_repo_from_mount_src(&self, repo_or_archive: &str) -> (r: Result<
        Repository,
        BorgError,
    >)
        ensures
            ({
                let name = crate::strutil::repo_source_name(repo_or_archive@);
                match r {
                    Ok(rep) => exists|i: int|
                        0 <= i < self@.repos.len() && (#[trigger] self@.repos[i]).path == name && !(
                        self@.repos[i]).disabled && rep@ == self@.repos[i],
                    Err(e) => e == BorgError::RepositoryNotFound && forall|i: int|
                        0 <= i < self@.repos.len() ==> !(!(#[trigger] self@.repos[i]).disabled && (
                        self@.repos[i]).path == name),
                }
            }),
    {
        let name = crate::strutil::repo_name_of(repo_or_archive);
        let ghost target = crate::strutil::repo_source_name(repo_or_archive@);
        let mut i: usize = 0;
        while i < self.repos.len()
            invariant
                i <= self.repos.len(),
                self@.repos.len() == self.repos.len(),
                name@ == target,
                target == crate::strutil::repo_source_name(repo_or_archive@),
                forall|j: int|
                    0 <= j < i ==> !(!(#[trigger] self@.repos[j]).disabled && (self@.repos[j]).path
                        == target),
            decreases self.repos.len() - i,
        {
            proof {
                assert(self@.repos[i as int] == self.repos@[i as int]@);
            }
            if !self.repos[i].disabled && str_eq(self.repos[i].path.as_str(), name.as_str()) {
                let rep = self.repos[i].duplicate();
                proof {
                    let vi = self@.repos[i as int];
                    assert(0 <= i < self@.repos.len() && vi.path == target && !vi.disabled && rep@
                        == vi);
                    assert((#[trigger] self@.repos[i as int]) == vi);
                }
                return Ok(rep);
            }
            i = i + 1;
        }
        Err(BorgError::RepositoryNotFound)
    }

    /// Adds a backup source path. The caller supplies what only the
    /// filesystem can tell: whether the path's metadata was readable
    /// (`exists`) and its symlink-resolved form (`canonical`). The path is
    /// rejected when it is already present, when it does not exist, and
    /// when it is relative or contains symlink components (that is, when
    /// it differs from its canonical form) — in that order of checks.
    pub fn add_backup_path(&mut self, path: String, canonical: &str, exists: bool) -> (r: Result<
        (),
        BorgError,
    >)
        ensures
            old(self).wf() ==> final(self).wf(),
            final(self)@.name == old(self)@.name,
            final(self)@.exclude_patterns == old(self)@.exclude_patterns,
            final(self)@.exclude_caches == old(self)@.exclude_caches,
            final(self)@.prune_options == old(self)@.prune_options,
            final(self)@.action_timeout_seconds == old(self)@.action_timeout_seconds,
            final(self)@.repos == old(self)@.repos,
            match r {
                Ok(()) => final(self)@.backup_paths == old(self)@.backup_paths.push(path@) && !old(self)@.backup_paths.contains(path@) && exists && canonical@ == path@,
                Err(e) => final(self)@.backup_paths == old(self)@.backup_paths && (if old(self)@.backup_paths.contains(path@) {
                    e == BorgError::PathAlreadyExists
                } else if !exists {
                    e == BorgError::PathDoesNotExist
                } else {
                    e == BorgError::PathNotCanonical && canonical@ != path@
                }),
            },
    {
        let mut i: usize = 0;
        let mut found = false;
        while i < self.backup_paths.len()
            invariant
                i <= self.backup_paths.len(),
                self@.backup_paths.len() == self.backup_paths.len(),
                found == exists|j: int|
                    0 <= j < i && (#[trigger] self@.backup_paths[j]) == path@,
            decreases self.backup_paths.len() - i,
        {
            proof {
                assert(self@.backup_paths[i as int] == self.backup_paths@[i as int]@);
            }
            if str_eq(self.backup_paths[i].as_str(), path.as_str()) {
                found = true;
                proof {
                    assert((self@.backup_paths[i as int]) == path@);
                }
            }
            i = i + 1;
        }
        if found {
            proof {
                let j = choose|j: int|
                    0 <= j < self@.backup_paths.len() && (#[trigger] self@.backup_paths[j])
                        == path@;
                assert(old(self)@.backup_paths.contains(path@));
            }
            return Err(BorgError::PathAlreadyExists);
        }
        proof {
            assert(!old(self)@.backup_paths.contains(path@)) by {
                if old(self)@.backup_paths.contains(path@) {
                    let j = choose|j: int|
                        0 <= j < old(self)@.backup_paths.len() && old(self)@.backup_paths[j]
                            == path@;
                    assert((self@.backup_paths[j]) == path@);
                }
            }
        }
        if !exists {
            return Err(BorgError::PathDoesNotExist);
        }
        if !str_eq(canonical, path.as_str()) {
            return Err(BorgError::PathNotCanonical);
        }
        let ghost old_paths = self@.backup_paths;
        self.backup_paths.push(path);
        proof {
            assert(final(self)@.backup_paths =~= old_paths.push(path@));
            assert(final(self)@.exclude_patterns =~= old(self)@.exclude_patterns);
            assert(final(self)@.repos =~= old(self)@.repos);
            if old(self).wf() {
                assert forall|a: int, b: int|
                    0 <= a < b < final(self)@.backup_paths.len() implies final(self)@.backup_paths[a] != final(self)@.backup_paths[b] by {
                    if b == final(self)@.backup_paths.len() - 1 {
                        assert(old_paths[a] == final(self)@.backup_paths[a]);
                        if final(self)@.backup_paths[a] == path@ {
                            assert(old_paths.contains(path@));
                        }
                    }
                }
            }
        }
        Ok(())
    }

    /// Removes every occurrence of `path` from the backup source paths.
    pub fn remove_backup_path(&mut self, path: &str)
        ensures
            old(self).wf() ==> final(self).wf(),
            final(self)@.name == old(self)@.name,
            final(self)@.exclude_patterns == old(self)@.exclude_patterns,
            final(self)@.exclude_caches == old(self)@.exclude_caches,
            final(self)@.prune_options == old(self)@.prune_options,
            final(self)@.action_timeout_seconds == old(self)@.action_timeout_seconds,
            final(self)@.repos == old(self)@.repos,
            final(self)@.backup_paths == old(self)@.backup_paths.filter(
                |p: Seq<char>| p != path@,
            ),
    {
        let ghost pred = |p: Seq<char>| p != path@;
        let ghost vs = self@.backup_paths;
        let mut out: Vec<String> = Vec::new();
        let mut i: usize = 0;
        proof {
            reveal(Seq::filter);
            assert(vs.take(0) =~= Seq::<Seq<char>>::empty());
            assert(out@.map_values(|s: String| s@) =~= Seq::<Seq<char>>::empty());
        }
        while i < self.backup_paths.len()
            invariant
                i <= self.backup_paths.len(),
                vs == self@.backup_paths,
                vs.len() == self.backup_paths.len(),
                out@.map_values(|s: String| s@) == vs.take(i as int).filter(
                    |p: Seq<char>| p != path@,
                ),
            decreases self.backup_paths.len() - i,
        {
            let ghost prev = out@.map_values(|s: String| s@);
            proof {
                assert(vs[i as int] == self.backup_paths@[i as int]@);
            }
            if !str_eq(self.backup_paths[i].as_str(), path) {
                out.push(self.backup_paths[i].clone());
                proof {
                    assert(out@.map_values(|s: String| s@) =~= prev.push(vs[i as int]));
                }
            }
            proof {
                reveal_with_fuel(Seq::filter, 3);
                assert(vs.take(i + 1) =~= vs.take(i as int) + seq![vs[i as int]]);
                Seq::<Seq<char>>::filter_distributes_over_add(
                    vs.take(i as int),
                    seq![vs[i as int]],
                    |p: Seq<char>| p != path@,
                );
                if vs[i as int] != path@ {
                    assert(seq![vs[i as int]].filter(|p: Seq<char>| p != path@)
                        =~= seq![vs[i as int]]);
                } else {
                    assert(seq![vs[i as int]].filter(|p: Seq<char>| p != path@)
                        =~= Seq::<Seq<char>>::empty());
                }
                assert(out@.map_values(|s: String| s@) =~= vs.take(i + 1).filter(
                    |p: Seq<char>| p != path@,
                ));
            }
            i = i + 1;
        }
        proof {
            assert(vs.take(vs.len() as int) =~= vs);
        }
        self.backup_paths = out;
        proof {
            assert(final(self)@.backup_paths == vs.filter(|p: Seq<char>| p != path@));
            if old(self).wf() {
                lemma_filter_distinct(vs, |p: Seq<char>| p != path@);
            }
            assert(final(self)@.exclude_patterns =~= old(self)@.exclude_patterns);
            assert(final(self)@.repos =~= old(self)@.repos);
        }
    }

    /// Applies one mutation. `canonical` and `exists` carry the
    /// filesystem facts `add_backup_path` needs; a removal ignores them.
    pub fn apply_operation(&mut self, op: ProfileOperation, canonical: &str, exists: bool) -> (r:
        Result<(), BorgError>)
        ensures
            old(self).wf() ==> final(self).wf(),
            match op {
                ProfileOperation::AddBackupPath(path) => match r {
                    Ok(()) => final(self)@.backup_paths == old(self)@.backup_paths.push(path@)
                        && final(self)@.repos == old(self)@.repos,
                    Err(_) => final(self)@.backup_paths == old(self)@.backup_paths && final(self)@.repos == old(self)@.repos,
                },
                ProfileOperation::RemoveBackupPath(path) => r is Ok && final(self)@.backup_paths
                    == old(self)@.backup_paths.filter(|p: Seq<char>| p != path@) && final(self)@.repos == old(self)@.repos,
            },
    {
        match op {
            ProfileOperation::AddBackupPath(path) => self.add_backup_path(path, canonical, exists),
            ProfileOperation::RemoveBackupPath(path) => {
                self.remove_backup_path(path.as_str());
                Ok(())
            },
        }
    }
}

/// Filtering keeps pairwise-distinct sequences pairwise distinct.
pub proof fn lemma_filter_distinct<A>(s: Seq<A>, pred: spec_fn(A) -> bool)
    requires
        forall|i: int, j: int| 0 <= i < j < s.len() ==> s[i] != s[j],
    ensures
        forall|i: int, j: int|
            0 <= i < j < s.filter(pred).len() ==> s.filter(pred)[i] != s.filter(pred)[j],
    decreases s.len(),
{
    reveal(Seq::filter);
    if s.len() > 0 {
        let d = s.drop_last();
        assert forall|i: int, j: int| 0 <= i < j < d.len() implies d[i] != d[j] by {
            assert(d[i] == s[i] && d[j] == s[j]);
        }
        lemma_filter_distinct(d, pred);
        let df = d.filter(pred);
        if pred(s.last()) {
            assert(s.filter(pred) == df.push(s.last()));
            assert forall|i: int, j: int|
                0 <= i < j < s.filter(pred).len() implies s.filter(pred)[i] != s.filter(
                pred,
            )[j] by {
                if j == s.filter(pred).len() - 1 {
                    // the pushed element is s.last(); every earlier element
                    // comes from d, whose members differ from s.last()
                    d.lemma_filter_pred(pred, i);
                    lemma_filter_member_of(d, pred, i);
                    let w = choose|w: int| 0 <= w < d.len() && d[w] == df[i];
                    assert(s[w] == d[w]);
                    assert(s[w] != s[s.len() - 1]);
                }
            }
        }
    }
}

/// Every element of a filtered sequence occurs in the original.
pub proof fn lemma_filter_member_of<A>(s: Seq<A>, pred: spec_fn(A) -> bool, i: int)
    requires
        0 <= i < s.filter(pred).len(),
    ensures
        exists|w: int| 0 <= w < s.len() && s[w] == s.filter(pred)[i],
    decreases s.len(),
{
    reveal(Seq::filter);
    if s.len() > 0 {
        let d = s.drop_last();
        if pred(s.last()) && i == s.filter(pred).len() - 1 {
            assert(s[s.len() - 1] == s.filter(pred)[i]);
        } else {
            lemma_filter_member_of(d, pred, i);
            let w = choose|w: int| 0 <= w < d.len() && d[w] == d.filter(pred)[i];
            assert(s[w] == s.filter(pred)[i]);
        }
    }
}

} // verus!

verus! {

impl Profile {
    /// Reads the repository at `i`.
    pub fn repository_at(&self, i: usize) -> (r: &Repository)
        requires
            i < self@.repos.len(),
        ensures
            r@ == self@.repos[i as int],
    {
        proof {
            assert(self@.repos[i as int] == self.repos@[i as int]@);
        }
        &self.repos[i]
    }

    /// Replaces the repository at `i`.
    pub fn replace_repository(&mut self, i: usize, repo: Repository)
        requires
            i < old(self)@.repos.len(),
        ensures
            final(self)@.repos == old(self)@.repos.update(i as int, repo@),
            final(self)@.name == old(self)@.name,
            final(self)@.backup_paths == old(self)@.backup_paths,
            final(self)@.exclude_patterns == old(self)@.exclude_patterns,
            final(self)@.exclude_caches == old(self)@.exclude_caches,
            final(self)@.prune_options == old(self)@.prune_options,
            final(self)@.action_timeout_seconds == old(self)@.action_timeout_seconds,
            old(self).wf() ==> final(self).wf(),
    {
        self.repos.set(i, repo);
        proof {
            assert(final(self)@.repos =~= old(self)@.repos.update(i as int, repo@));
            assert(final(self)@.backup_paths =~= old(self)@.backup_paths);
            assert(final(self)@.exclude_patterns =~= old(self)@.exclude_patterns);
        }
    }

    /// The index of the first repository at `path`, searching enabled and
    /// disabled ones alike.
    pub fn repository_index(&self, path: &str) -> (r: Option<usize>)
        ensures
            match r {
                Some(i) => i < self@.repos.len() && (self@.repos[i as int]).path == path@ && forall|
                    j: int,
                |
                    0 <= j < i ==> (#[trigger] self@.repos[j]).path != path@,
                None => forall|j: int|
                    0 <= j < self@.repos.len() ==> (#[trigger] self@.repos[j]).path != path@,
            },
    {
        let mut i: usize = 0;
        while i < self.repos.len()
            invariant
                i <= self.repos.len(),
                self@.repos.len() == self.repos.len(),
                forall|j: int| 0 <= j < i ==> (#[trigger] self@.repos[j]).path != path@,
            decreases self.repos.len() - i,
        {
            proof {
                assert(self@.repos[i as int] == self.repos@[i as int]@);
            }
            if str_eq(self.repos[i].path.as_str(), path) {
                return Some(i);
            }
            i = i + 1;
        }
        None
    }
}

/// How passphrases arrive from the command line: a keyfile path, a raw
/// value stored in the configuration, explicitly none, or a value taken
/// from the environment.
pub struct PassphraseSource {
    /// A file whose (trimmed) contents are the passphrase.
    pub keyfile: Option<String>,
    /// Store the passphrase in the configuration file itself.
    pub raw: bool,
    /// No passphrase for this repository.
    pub none: bool,
    /// The passphrase taken from the environment, if set.
    pub borg_passphrase: Option<Passphrase>,
}

impl PassphraseSource {
    /// The passphrase this source yields. The keyfile's raw contents are
    /// supplied by the caller (`None` when the file could not be read);
    /// they are trimmed here.
    pub fn get_passphrase(&self, keyfile_contents: Option<&str>) -> (r: Result<
        Option<Passphrase>,
        BorgError,
    >)
        ensures
            ({
                if self.none {
                    r matches Ok(p) && p is None
                } else if self.borg_passphrase is Some {
                    self.borg_passphrase matches Some(p) && r matches Ok(q) && q matches Some(qq)
                        && qq@ == p@
                } else if self.keyfile is Some {
                    match keyfile_contents {
                        Some(contents) => r matches Ok(q) && q matches Some(qq) && qq@
                            == crate::strutil::trim_spec(contents@),
                        None => r == Err::<Option<Passphrase>, BorgError>(
                            BorgError::KeyfileUnreadable,
                        ),
                    }
                } else {
                    r matches Ok(p) && p is None
                }
            }),
    {
        if self.none {
            return Ok(None);
        }
        match &self.borg_passphrase {
            Some(p) => Ok(Some(p.duplicate())),
            None => match &self.keyfile {
                Some(_) => match keyfile_contents {
                    Some(contents) => Ok(Some(Passphrase::new(crate::strutil::trim(contents)))),
                    None => Err(BorgError::KeyfileUnreadable),
                },
                None => Ok(None),
            },
        }
    }
}

/// An instruction to create a keyfile: the resolver decided that the
/// passphrase at hand should be persisted at this path (with owner-only
/// permissions). Writing the file is the application's business.
pub struct KeyfileWrite {
    pub path: String,
    pub passphrase: Passphrase,
}

impl Encryption {
    /// Chooses the encryption descriptor a passphrase source implies.
    /// `keyfile_exists` reports whether the keyfile is already on disk;
    /// when it is not and a passphrase is at hand, the second component
    /// instructs the caller to create it. When the keyfile exists, the
    /// passphrase from the environment is ignored and the file is left
    /// alone.
    pub fn from_passphrase_loc(loc: &PassphraseSource, keyfile_exists: bool) -> (r: (
        Encryption,
        Option<KeyfileWrite>,
    ))
        ensures
            ({
                let enc = r.0@;
                let write = r.1;
                if loc.raw && loc.borg_passphrase is Some {
                    loc.borg_passphrase matches Some(p) && enc == EncryptionView::Raw(p@) && write
                        is None
                } else {
                    match (&loc.keyfile, &loc.borg_passphrase) {
                        (Some(kf), None) => enc == EncryptionView::Keyfile(kf@) && write is None,
                        (Some(kf), Some(p)) => enc == EncryptionView::Keyfile(kf@) && (if keyfile_exists {
                            write is None
                        } else {
                            write matches Some(w) && w.path@ == kf@ && w.passphrase@ == p@
                        }),
                        (None, Some(_)) => enc == EncryptionView::Keyring && write is None,
                        (None, None) => enc == EncryptionView::NoEncryption && write is None,
                    }
                }
            }),
    {
        if loc.raw {
            if let Some(p) = &loc.borg_passphrase {
                return (Encryption::Raw(p.duplicate()), None);
            }
        }
        match (&loc.keyfile, &loc.borg_passphrase) {
            (Some(kf), None) => (Encryption::Keyfile(kf.clone()), None),
            (Some(kf), Some(p)) => {
                if keyfile_exists {
                    (Encryption::Keyfile(kf.clone()), None)
                } else {
                    (
                        Encryption::Keyfile(kf.clone()),
                        Some(KeyfileWrite { path: kf.clone(), passphrase: p.duplicate() }),
                    )
                }
            },
            (None, Some(_)) => (Encryption::Keyring, None),
            (None, None) => (Encryption::NoEncryption, None),
        }
    }
}

} // verus!

verus! {

impl Profile {
    /// A value-identical copy: mutating commands work on an owned copy of
    /// the profile, persist it, and republish it, rather than sharing one
    /// mutable profile across tasks.
    pub fn duplicate(&self) -> (r: Self)
        ensures
            r@ == self@,
    {
        let mut repos: Vec<Repository> = Vec::new();
        let mut i: usize = 0;
        while i < self.repos.len()
            invariant
                i <= self.repos@.len(),
                repos@.map_values(|x: Repository| x@) == self@.repos.take(i as int),
                self@.repos.len() == self.repos@.len(),
            decreases self.repos@.len() - i,
        {
            let ghost prev = repos@.map_values(|x: Repository| x@);
            proof {
                assert(self@.repos[i as int] == self.repos@[i as int]@);
            }
            repos.push(self.repos[i].duplicate());
            proof {
                assert(repos@.map_values(|x: Repository| x@) =~= prev.push(
                    self@.repos[i as int],
                ));
                assert(self@.repos.take(i + 1) =~= self@.repos.take(i as int).push(
                    self@.repos[i as int],
                ));
            }
            i = i + 1;
        }
        proof {
            assert(self@.repos.take(self@.repos.len() as int) =~= self@.repos);
        }
        let r = Profile {
            name: self.name.clone(),
            backup_paths: crate::strutil::clone_string_vec(&self.backup_paths),
            exclude_patterns: crate::strutil::clone_string_vec(&self.exclude_patterns),
            exclude_caches: self.exclude_caches,
            prune_options: self.prune_options,
            action_timeout_seconds: self.action_timeout_seconds,
            repos,
        };
        proof {
            assert(r@ =~= self@);
        }
        r
    }
}

} // verus!

verus! {

impl Profile {
    /// Appends a repository, rejecting a second one at the same location.
    pub fn add_repository_checked(&mut self, repo: Repository) -> (r: Result<(), BorgError>)
        ensures
            match r {
                Ok(()) => final(self)@.repos == old(self)@.repos.push(repo@) && !(exists|i: int|
                    0 <= i < old(self)@.repos.len() && (#[trigger] old(self)@.repos[i]).path
                        == repo@.path),
                Err(e) => e == BorgError::RepositoryAlreadyExists && final(self)@.repos == old(
                    self,
                )@.repos && (exists|i: int|
                    0 <= i < old(self)@.repos.len() && (#[trigger] old(self)@.repos[i]).path
                        == repo@.path),
            },
            final(self)@.name == old(self)@.name,
            final(self)@.backup_paths == old(self)@.backup_paths,
            final(self)@.exclude_patterns == old(self)@.exclude_patterns,
            final(self)@.exclude_caches == old(self)@.exclude_caches,
            final(self)@.prune_options == old(self)@.prune_options,
            final(self)@.action_timeout_seconds == old(self)@.action_timeout_seconds,
            old(self).wf() ==> final(self).wf(),
    {
        if self.has_repository(repo.path.as_str()) {
            return Err(BorgError::RepositoryAlreadyExists);
        }
        self.add_repository(repo);
        Ok(())
    }
}

impl Repository {
    /// Mounting is refused for a disabled repository.
    pub fn ensure_mountable(&self) -> (r: Result<(), BorgError>)
        ensures
            match r {
                Ok(()) => !self@.disabled,
                Err(e) => self@.disabled && e == BorgError::RepositoryDisabled,
            },
    {
        if self.disabled {
            Err(BorgError::RepositoryDisabled)
        } else {
            Ok(())
        }
    }
}

} // verus!
