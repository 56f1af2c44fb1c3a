//! Secret resolution: given an `Encryption` descriptor, produce the
//! repository's passphrase, or establish that none is needed.
//!
//! Access to the system credential store is an injected capability
//! (`SecretStore`), so tests can substitute the in-memory store below; the
//! application implements the trait against the real keyring, keyed by
//! `(application name, repository location)`.
use vstd::prelude::*;

use crate::profiles::{BorgError, Encryption, EncryptionView, Passphrase, Repository};
use crate::strutil::{str_eq, trim, trim_spec};

verus! {

/// A credential store: a mapping from repository locations to secrets.
pub trait SecretStore {
    /// The secrets the store holds.
    spec fn store_view(&self) -> Map<Seq<char>, Seq<char>>;

    /// Looks a secret up by repository location.
    fn get_secret(&self, location: &str) -> (r: Option<String>)
        ensures
            match r {
                Some(s) => self.store_view().contains_key(location@) && s@
                    == self.store_view()[location@],
                None => !self.store_view().contains_key(location@),
            },
    ;

    /// Stores a secret under a repository location. `false` means the
    /// store rejected the write and is unchanged.
    fn set_secret(&mut self, location: &str, value: &str) -> (r: bool)
        ensures
            r ==> final(self).store_view() == old(self).store_view().insert(location@, value@),
            !r ==> final(self).store_view() == old(self).store_view(),
    ;
}

/// What a sequence of `(location, secret)` pairs holds, as a map. Later
/// pairs win, though the store below never keeps two pairs for one key.
pub open spec fn map_of_pairs(pairs: Seq<(String, String)>) -> Map<Seq<char>, Seq<char>>
    decreases pairs.len(),
{
    if pairs.len() == 0 {
        Map::empty()
    } else {
        map_of_pairs(pairs.drop_last()).insert(pairs.last().0@, pairs.last().1@)
    }
}

proof fn lemma_map_of_pairs_contains(pairs: Seq<(String, String)>, k: Seq<char>)
    ensures
        map_of_pairs(pairs).contains_key(k) <==> exists|i: int|
            0 <= i < pairs.len() && (#[trigger] pairs[i]).0@ == k,
    decreases pairs.len(),
{
    if pairs.len() > 0 {
        lemma_map_of_pairs_contains(pairs.drop_last(), k);
        if pairs.last().0@ == k {
            assert((pairs[pairs.len() - 1]).0@ == k);
        } else if map_of_pairs(pairs).contains_key(k) {
            let i = choose|i: int| 0 <= i < pairs.drop_last().len() && (#[trigger] pairs.drop_last()[i]).0@ == k;
            assert((pairs[i]).0@ == k);
        } else {
            if exists|i: int| 0 <= i < pairs.len() && (#[trigger] pairs[i]).0@ == k {
                let i = choose|i: int| 0 <= i < pairs.len() && (#[trigger] pairs[i]).0@ == k;
                assert(i < pairs.len() - 1);
                assert((pairs.drop_last()[i]).0@ == k);
            }
        }
    }
}

proof fn lemma_map_of_pairs_at(pairs: Seq<(String, String)>, i: int)
    requires
        0 <= i < pairs.len(),
        forall|a: int, b: int|
            0 <= a < b < pairs.len() ==> (#[trigger] pairs[a]).0@ != (#[trigger] pairs[b]).0@,
    ensures
        map_of_pairs(pairs).contains_key(pairs[i].0@),
        map_of_pairs(pairs)[pairs[i].0@] == pairs[i].1@,
    decreases pairs.len(),
{
    if i == pairs.len() - 1 {
    } else {
        assert(forall|a: int, b: int|
            0 <= a < b < pairs.drop_last().len() ==> (#[trigger] pairs.drop_last()[a]).0@ != (
            #[trigger] pairs.drop_last()[b]).0@);
        lemma_map_of_pairs_at(pairs.drop_last(), i);
        assert((pairs[i]).0@ != (pairs[pairs.len() - 1]).0@);
        assert(pairs.drop_last()[i] == pairs[i]);
    }
}

proof fn lemma_map_of_pairs_update(pairs: Seq<(String, String)>, i: int, kv: (String, String))
    requires
        0 <= i < pairs.len(),
        forall|a: int, b: int|
            0 <= a < b < pairs.len() ==> (#[trigger] pairs[a]).0@ != (#[trigger] pairs[b]).0@,
        kv.0@ == pairs[i].0@,
    ensures
        map_of_pairs(pairs.update(i, kv)) == map_of_pairs(pairs).insert(kv.0@, kv.1@),
    decreases pairs.len(),
{
    let updated = pairs.update(i, kv);
    if i == pairs.len() - 1 {
        assert(updated.drop_last() =~= pairs.drop_last());
        assert(updated.last() == kv);
        assert(map_of_pairs(updated) =~= map_of_pairs(pairs).insert(kv.0@, kv.1@));
    } else {
        assert(forall|a: int, b: int|
            0 <= a < b < pairs.drop_last().len() ==> (#[trigger] pairs.drop_last()[a]).0@ != (
            #[trigger] pairs.drop_last()[b]).0@);
        assert(updated.drop_last() =~= pairs.drop_last().update(i, kv));
        lemma_map_of_pairs_update(pairs.drop_last(), i, kv);
        assert(updated.last() == pairs.last());
        // the two inserts commute because the keys differ
        assert((pairs[i]).0@ != (pairs[pairs.len() - 1]).0@);
        assert(map_of_pairs(updated) == map_of_pairs(pairs.drop_last()).insert(
            kv.0@,
            kv.1@,
        ).insert(pairs.last().0@, pairs.last().1@));
        assert(map_of_pairs(pairs.drop_last()).insert(kv.0@, kv.1@).insert(
            pairs.last().0@,
            pairs.last().1@,
        ) =~= map_of_pairs(pairs.drop_last()).insert(pairs.last().0@, pairs.last().1@).insert(
            kv.0@,
            kv.1@,
        ));
    }
}

/// An in-memory credential store: what the tests substitute for the
/// system keyring.
pub struct MemorySecretStore {
    pairs: Vec<(String, String)>,
}

impl MemorySecretStore {
    /// Keys are pairwise distinct.
    #[verifier::type_invariant]
    spec fn wf(&self) -> bool {
        forall|a: int, b: int|
            0 <= a < b < self.pairs@.len() ==> (#[trigger] self.pairs@[a]).0@ != (
            #[trigger] self.pairs@[b]).0@
    }

    pub fn new() -> (r: Self)
        ensures
            r.store_view() == Map::<Seq<char>, Seq<char>>::empty(),
    {
        MemorySecretStore { pairs: Vec::new() }
    }

    fn find_key(&self, location: &str) -> (r: Option<usize>)
        ensures
            match r {
                Some(i) => i < self.pairs@.len() && (self.pairs@[i as int]).0@ == location@,
                None => forall|i: int|
                    0 <= i < self.pairs@.len() ==> (#[trigger] self.pairs@[i]).0@ != location@,
            },
    {
        let mut i: usize = 0;
        while i < self.pairs.len()
            invariant
                i <= self.pairs@.len(),
                forall|j: int| 0 <= j < i ==> (#[trigger] self.pairs@[j]).0@ != location@,
            decreases self.pairs@.len() - i,
        {
            if str_eq(self.pairs[i].0.as_str(), location) {
                return Some(i);
            }
            i = i + 1;
        }
        None
    }
}

impl SecretStore for MemorySecretStore {
    closed spec fn store_view(&self) -> Map<Seq<char>, Seq<char>> {
        map_of_pairs(self.pairs@)
    }

    fn get_secret(&self, location: &str) -> (r: Option<String>) {
        proof {
            use_type_invariant(&*self);
        }
        match self.find_key(location) {
            Some(i) => {
                proof {
                    lemma_map_of_pairs_at(self.pairs@, i as int);
                }
                Some(self.pairs[i].1.clone())
            },
            None => {
                proof {
                    lemma_map_of_pairs_contains(self.pairs@, location@);
                }
                None
            },
        }
    }

    fn set_secret(&mut self, location: &str, value: &str) -> (r: bool) {
        proof {
            use_type_invariant(&*self);
        }
        let found = self.find_key(location);
        let mut pairs: Vec<(String, String)> = Vec::new();
        std::mem::swap(&mut pairs, &mut self.pairs);
        match found {
            Some(i) => {
                let kv = (location.to_owned(), value.to_owned());
                proof {
                    lemma_map_of_pairs_update(pairs@, i as int, kv);
                }
                pairs.set(i, kv);
            },
            None => {
                pairs.push((location.to_owned(), value.to_owned()));
                proof {
                    assert(pairs@.drop_last() =~= old(self).pairs@);
                }
            },
        }
        std::mem::swap(&mut pairs, &mut self.pairs);
        true
    }
}

} // verus!

verus! {

/// Law (secret round trip): a store that just accepted a secret for a
/// location resolves that location to the very same secret.
pub proof fn lemma_secret_round_trip(
    store: Map<Seq<char>, Seq<char>>,
    location: Seq<char>,
    secret: Seq<char>,
)
    ensures
        store.insert(location, secret).contains_key(location),
        store.insert(location, secret)[location] == secret,
{
}

/// Stores `passphrase` for `location` and immediately reads it back,
/// reporting success only when the read-back returns the stored value.
pub fn store_passphrase<S: SecretStore>(
    store: &mut S,
    location: &str,
    passphrase: &Passphrase,
) -> (r: Result<(), BorgError>)
    ensures
        match r {
            Ok(()) => final(store).store_view() == old(store).store_view().insert(
                location@,
                passphrase@,
            ) && final(store).store_view().contains_key(location@) && final(store).store_view()[location@] == passphrase@,
            Err(e) => e == BorgError::KeyringFailure && final(store).store_view() == old(store).store_view(),
        },
{
    if !store.set_secret(location, passphrase.inner_ref()) {
        return Err(BorgError::KeyringFailure);
    }
    // read back to assert the write took hold, as the resolver promises
    match store.get_secret(location) {
        Some(read_back) => {
            if str_eq(read_back.as_str(), passphrase.inner_ref()) {
                Ok(())
            } else {
                // unreachable under the store contract; kept for unverified
                // stores the application may inject
                Err(BorgError::KeyringFailure)
            }
        },
        None => Err(BorgError::KeyringFailure),
    }
}

impl Repository {
    /// Resolves this repository's passphrase. Reading a keyfile is the
    /// caller's business (it is filesystem I/O): `keyfile_contents` holds
    /// the raw file contents, or `None` when the file could not be read.
    ///
    /// No passphrase without encryption; the cleartext value for `Raw`;
    /// a store lookup keyed by the repository location for `Keyring`,
    /// failing when the store has no entry; the trimmed file contents for
    /// `Keyfile`, failing when the file was unreadable.
    pub fn get_passphrase<S: SecretStore>(&self, store: &S, keyfile_contents: Option<&str>) -> (r:
        Result<Option<Passphrase>, BorgError>)
        ensures
            match self@.encryption {
                EncryptionView::NoEncryption => r matches Ok(p) && p is None,
                EncryptionView::Raw(secret) => (r matches Ok(p) && p matches Some(pp)
                    && pp@ == secret),
                EncryptionView::Keyring => {
                    if store.store_view().contains_key(self@.path) {
                        r matches Ok(p) && p matches Some(pp) && pp@ == store.store_view()[self@.path]
                    } else {
                        r == Err::<Option<Passphrase>, BorgError>(BorgError::KeyringFailure)
                    }
                },
                EncryptionView::Keyfile(_) => match keyfile_contents {
                    Some(contents) => (r matches Ok(p) && p matches Some(pp) && pp@ == trim_spec(
                        contents@,
                    )),
                    None => r == Err::<Option<Passphrase>, BorgError>(BorgError::KeyfileUnreadable),
                },
            },
    {
        match &self.encryption {
            Encryption::NoEncryption => Ok(None),
            Encryption::Raw(passphrase) => Ok(Some(passphrase.duplicate())),
            Encryption::Keyring => match store.get_secret(self.path.as_str()) {
                Some(secret) => Ok(Some(Passphrase::new(secret))),
                None => Err(BorgError::KeyringFailure),
            },
            Encryption::Keyfile(_) => match keyfile_contents {
                Some(contents) => Ok(Some(Passphrase::new(trim(contents)))),
                None => Err(BorgError::KeyfileUnreadable),
            },
        }
    }

    /// Adopts a new encryption descriptor. For `Keyring`, the passphrase
    /// is written to the store and read back before success is reported;
    /// a missing passphrase or a store failure is an error — but the
    /// descriptor itself is adopted in any case, as the configuration
    /// model treats the encryption choice and the stored secret
    /// separately.
    pub fn set_passphrase<S: SecretStore>(
        &mut self,
        store: &mut S,
        encryption: Encryption,
        passphrase: Option<Passphrase>,
    ) -> (r: Result<(), BorgError>)
        ensures
            final(self)@.path == old(self)@.path,
            final(self)@.disabled == old(self)@.disabled,
            final(self)@.config == old(self)@.config,
            final(self)@.encryption == encryption@,
            match r {
                Ok(()) => {
                    if encryption@ is Keyring {
                        passphrase matches Some(p) && final(store).store_view() == old(store).store_view().insert(old(self)@.path, p@)
                    } else {
                        final(store).store_view() == old(store).store_view()
                    }
                },
                Err(e) => encryption@ is Keyring && final(store).store_view() == old(store).store_view() && (match passphrase {
                    Some(_) => e == BorgError::KeyringFailure,
                    None => e == BorgError::PassphraseMissing,
                }),
            },
    {
        let is_keyring = match &encryption {
            Encryption::Keyring => true,
            _ => false,
        };
        self.encryption = encryption;
        if is_keyring {
            let passphrase = match passphrase {
                Some(p) => p,
                None => {
                    return Err(BorgError::PassphraseMissing);
                },
            };
            match store_passphrase(store, self.path.as_str(), &passphrase) {
                Ok(()) => {},
                Err(e) => {
                    return Err(e);
                },
            }
        }
        Ok(())
    }
}

} // verus!

verus! {

/// What a repository looks like after its encryption descriptor changed.
pub open spec fn with_encryption(
    repo: crate::profiles::RepositoryView,
    encryption: EncryptionView,
) -> crate::profiles::RepositoryView {
    crate::profiles::RepositoryView {
        path: repo.path,
        encryption,
        disabled: repo.disabled,
        config: repo.config,
    }
}

impl crate::profiles::Profile {
    /// Changes the passphrase of the repository at `repo_path`: adopts the
    /// new encryption descriptor there and, for a keyring-backed one,
    /// stores the passphrase (write, then read back) under that location.
    pub fn update_repository_password<S: SecretStore>(
        &mut self,
        store: &mut S,
        repo_path: &str,
        encryption: Encryption,
        passphrase: Option<Passphrase>,
    ) -> (r: Result<(), BorgError>)
        ensures
            final(self)@.name == old(self)@.name,
            final(self)@.backup_paths == old(self)@.backup_paths,
            final(self)@.exclude_patterns == old(self)@.exclude_patterns,
            final(self)@.exclude_caches == old(self)@.exclude_caches,
            final(self)@.prune_options == old(self)@.prune_options,
            final(self)@.action_timeout_seconds == old(self)@.action_timeout_seconds,
            old(self).wf() ==> final(self).wf(),
            (forall|j: int|
                0 <= j < old(self)@.repos.len() ==> (#[trigger] old(self)@.repos[j]).path
                    != repo_path@) ==> (r == Err::<(), BorgError>(BorgError::RepositoryNotFound)
                && final(self)@.repos == old(self)@.repos && final(store).store_view() == old(
                store,
            ).store_view()),
            (exists|j: int|
                0 <= j < old(self)@.repos.len() && (#[trigger] old(self)@.repos[j]).path
                    == repo_path@) ==> (exists|i: int|
                {
                    &&& 0 <= i < old(self)@.repos.len()
                    &&& (#[trigger] old(self)@.repos[i]).path == repo_path@
                    &&& (forall|j: int|
                        0 <= j < i ==> (#[trigger] old(self)@.repos[j]).path != repo_path@)
                    &&& final(self)@.repos == old(self)@.repos.update(
                        i,
                        with_encryption(old(self)@.repos[i], encryption@),
                    )
                    &&& (match r {
                        Ok(()) => {
                            if encryption@ is Keyring {
                                passphrase matches Some(p) && final(store).store_view() == old(
                                    store,
                                ).store_view().insert(repo_path@, p@)
                            } else {
                                final(store).store_view() == old(store).store_view()
                            }
                        },
                        Err(e) => encryption@ is Keyring && final(store).store_view() == old(
                            store,
                        ).store_view() && (match passphrase {
                            Some(_) => e == BorgError::KeyringFailure,
                            None => e == BorgError::PassphraseMissing,
                        }),
                    })
                }),
    {
        match self.repository_index(repo_path) {
            None => Err(BorgError::RepositoryNotFound),
            Some(i) => {
                let mut repo = self.repository_at(i).duplicate();
                let res = repo.set_passphrase(store, encryption, passphrase);
                self.replace_repository(i, repo);
                res
            },
        }
    }
}

} // verus!
