//! The directory suggestion index: a lexicographically sorted set of known
//! directory paths with prefix-range lookups for path autocompletion, and
//! the glob-based exclusion that keeps unwanted paths out of it.
//!
//! The index is populated incrementally from shallow filesystem walks; the
//! walking itself is I/O and happens in the application, which hands the
//! paths it found to `note_directories`.
use vstd::prelude::*;

use crate::profiles::BorgError;
use crate::strutil::{
    contains_char, lemma_seq_lt_total, lemma_seq_lt_trans, seq_le, seq_lt, str_contains_char,
    str_eq, str_le,
};

verus! {

/// Whether the glob pattern matches the path: the verdict of
/// `glob::Pattern::matches`, which depends on the two strings alone.
pub uninterp spec fn glob_matches(pattern: Seq<char>, path: Seq<char>) -> bool;

/// Whether the pattern is a well-formed glob: the verdict of
/// `glob::Pattern::new`, which depends on the pattern alone.
pub uninterp spec fn glob_pattern_ok(pattern: Seq<char>) -> bool;

/// Relies on glob::Pattern::new and glob::Pattern::matches: compiles the
/// pattern and matches it against the path. `None` exactly when the
/// pattern is no valid glob.
#[verifier::external_body]
fn glob_match(pattern: &str, path: &str) -> (r: Option<bool>)
    ensures
        r == (if glob_pattern_ok(pattern@) {
            Some(glob_matches(pattern@, path@))
        } else {
            None::<bool>
        }),
{
    match glob::Pattern::new(pattern) {
        Ok(p) => Some(p.matches(path)),
        Err(_) => None,
    }
}

/// Whether some pattern of the list is a valid glob that matches `path`.
pub open spec fn excluded_by(patterns: Seq<Seq<char>>, path: Seq<char>) -> bool {
    exists|i: int|
        0 <= i < patterns.len() && glob_pattern_ok(#[trigger] patterns[i]) && glob_matches(
            patterns[i],
            path,
        )
}

/// Whether any of the exclude patterns matches `path`. A pattern that is
/// no valid glob excludes nothing.
pub fn is_excluded(patterns: &Vec<String>, path: &str) -> (r: bool)
    ensures
        r == excluded_by(patterns@.map_values(|s: String| s@), path@),
{
    let ghost pv = patterns@.map_values(|s: String| s@);
    let mut i: usize = 0;
    while i < patterns.len()
        invariant
            i <= patterns.len(),
            pv == patterns@.map_values(|s: String| s@),
            pv.len() == patterns.len(),
            forall|j: int|
                0 <= j < i ==> !(glob_pattern_ok(#[trigger] pv[j]) && glob_matches(pv[j], path@)),
        decreases patterns.len() - i,
    {
        proof {
            assert(pv[i as int] == patterns@[i as int]@);
        }
        match glob_match(patterns[i].as_str(), path) {
            Some(true) => {
                proof {
                    assert(glob_pattern_ok(pv[i as int]) && glob_matches(pv[i as int], path@));
                }
                return true;
            },
            _ => {},
        }
        i = i + 1;
    }
    false
}

/// Whether a known path is offered for a lookup fragment: it must not
/// come lexicographically before the fragment, and — unless the fragment
/// itself holds a dot — paths holding a dot are suppressed.
pub open spec fn suggestion_candidate(fragment: Seq<char>, entry: Seq<char>) -> bool {
    seq_le(fragment, entry) && !(contains_char(entry, '.') && !contains_char(fragment, '.'))
}

/// The lexicographically sorted set of known directory paths, with the
/// update generation a consumer uses to discard stale suggestion batches.
pub struct DirectoryFinder {
    known_directories: Vec<String>,
    num_updates: u64,
    exclude_patterns: Vec<String>,
}

impl DirectoryFinder {
    /// The paths are strictly sorted (so also pairwise distinct), and
    /// every kept exclude pattern is a valid glob.
    #[verifier::type_invariant]
    spec fn inv(&self) -> bool {
        (forall|i: int, j: int|
            0 <= i < j < self.known_directories@.len() ==> seq_lt(
                (#[trigger] self.known_directories@[i])@,
                (#[trigger] self.known_directories@[j])@,
            )) && (forall|i: int|
            0 <= i < self.exclude_patterns@.len() ==> glob_pattern_ok(
                (#[trigger] self.exclude_patterns@[i])@,
            ))
    }

    /// The known paths, in lexicographic order.
    pub closed spec fn known(&self) -> Seq<Seq<char>> {
        self.known_directories@.map_values(|s: String| s@)
    }

    /// The update generation: how many times the index was fed.
    pub closed spec fn generation(&self) -> nat {
        self.num_updates as nat
    }

    /// The exclude patterns in force.
    pub closed spec fn patterns(&self) -> Seq<Seq<char>> {
        self.exclude_patterns@.map_values(|s: String| s@)
    }

    pub fn new() -> (r: Self)
        ensures
            r.known() == Seq::<Seq<char>>::empty(),
            r.generation() == 0,
            r.patterns() == Seq::<Seq<char>>::empty(),
    {
        let r = DirectoryFinder {
            known_directories: Vec::new(),
            num_updates: 0,
            exclude_patterns: Vec::new(),
        };
        proof {
            assert(r.known() =~= Seq::<Seq<char>>::empty());
            assert(r.patterns() =~= Seq::<Seq<char>>::empty());
        }
        r
    }

    /// Adopts the profile's exclude patterns. All of them must be valid
    /// globs; on the first invalid one nothing is adopted and the error
    /// names the problem.
    pub fn seed_exclude_patterns(&mut self, exclude_patterns: &Vec<String>) -> (r: Result<
        (),
        BorgError,
    >)
        ensures
            final(self).known() == old(self).known(),
            final(self).generation() == old(self).generation(),
            match r {
                Ok(()) => final(self).patterns() == exclude_patterns@.map_values(|s: String| s@)
                    && (forall|i: int|
                    0 <= i < exclude_patterns@.len() ==> glob_pattern_ok(
                        (#[trigger] exclude_patterns@[i])@,
                    )),
                Err(e) => e == BorgError::InvalidPattern && final(self).patterns() == old(
                    self,
                ).patterns() && (exists|i: int|
                    0 <= i < exclude_patterns@.len() && !glob_pattern_ok(
                        (#[trigger] exclude_patterns@[i])@,
                    )),
            },
    {
        proof {
            use_type_invariant(&*self);
        }
        let mut validated: Vec<String> = Vec::new();
        let mut i: usize = 0;
        while i < exclude_patterns.len()
            invariant
                i <= exclude_patterns.len(),
                validated@.map_values(|s: String| s@) == exclude_patterns@.map_values(
                    |s: String| s@,
                ).take(i as int),
                forall|j: int|
                    0 <= j < i ==> glob_pattern_ok((#[trigger] exclude_patterns@[j])@),
            decreases exclude_patterns.len() - i,
        {
            let ghost prev = validated@.map_values(|s: String| s@);
            if glob_match(exclude_patterns[i].as_str(), "").is_none() {
                return Err(BorgError::InvalidPattern);
            }
            validated.push(exclude_patterns[i].clone());
            proof {
                let pv = exclude_patterns@.map_values(|s: String| s@);
                assert(validated@.map_values(|s: String| s@) =~= prev.push(pv[i as int]));
                assert(pv.take(i + 1) =~= pv.take(i as int).push(pv[i as int]));
            }
            i = i + 1;
        }
        proof {
            let pv = exclude_patterns@.map_values(|s: String| s@);
            assert(pv.take(pv.len() as int) =~= pv);
            assert forall|j: int|
                0 <= j < validated@.len() implies glob_pattern_ok(
                (#[trigger] validated@[j])@,
            ) by {
                assert(validated@.map_values(|s: String| s@)[j] == validated@[j]@);
                assert(exclude_patterns@.map_values(|s: String| s@)[j] == exclude_patterns@[j]@);
            }
        }
        let mut swapped = validated;
        std::mem::swap(&mut swapped, &mut self.exclude_patterns);
        Ok(())
    }

    /// Whether the exclusion rules suppress this path.
    pub fn excludes(&self, path: &str) -> (r: bool)
        ensures
            r == excluded_by(self.patterns(), path@),
    {
        is_excluded(&self.exclude_patterns, path)
    }

    /// Inserts one path, keeping the set sorted and free of duplicates.
    fn insert_sorted(&mut self, dir: &str)
        ensures
            final(self).known().contains(dir@),
            forall|x: Seq<char>|
                old(self).known().contains(x) ==> final(self).known().contains(x),
            forall|x: Seq<char>|
                final(self).known().contains(x) ==> old(self).known().contains(x) || x == dir@,
            final(self).generation() == old(self).generation(),
            final(self).patterns() == old(self).patterns(),
    {
        proof {
            use_type_invariant(&*self);
        }
        let ghost kv = self.known();
        let len = self.known_directories.len();
        let mut i: usize = 0;
        loop
            invariant
                i <= len,
                len == self.known_directories@.len(),
                kv == self.known(),
                forall|j: int| 0 <= j < i ==> seq_lt((#[trigger] kv[j]), dir@),
            ensures
                i <= len,
                forall|j: int| 0 <= j < i ==> seq_lt((#[trigger] kv[j]), dir@),
                i < len ==> seq_le(dir@, kv[i as int]),
                kv == self.known(),
                len == self.known_directories@.len(),
            decreases len - i,
        {
            if i == len {
                break;
            }
            proof {
                assert(kv[i as int] == self.known_directories@[i as int]@);
            }
            if str_le(dir, self.known_directories[i].as_str()) {
                proof {
                    lemma_seq_lt_total(kv[i as int], dir@);
                }
                break;
            }
            proof {
                lemma_seq_lt_total(kv[i as int], dir@);
            }
            i = i + 1;
        }
        if i < len {
            let present = str_eq(self.known_directories[i].as_str(), dir);
            if present {
                proof {
                    assert(kv.contains(kv[i as int]));
                }
                return;
            }
        }
        let ghost old_inv_holds = self.inv();
        let mut dirs: Vec<String> = Vec::new();
        std::mem::swap(&mut dirs, &mut self.known_directories);
        dirs.insert(i, dir.to_owned());
        proof {
            let nv = dirs@.map_values(|s: String| s@);
            assert(nv =~= kv.insert(i as int, dir@));
            assert forall|a: int, b: int| 0 <= a < b < nv.len() implies seq_lt(
                (#[trigger] dirs@[a])@,
                (#[trigger] dirs@[b])@,
            ) by {
                assert(dirs@[a]@ == nv[a]);
                assert(dirs@[b]@ == nv[b]);
                if b < i {
                    assert(nv[a] == kv[a] && nv[b] == kv[b]);
                } else if a < i && b == i {
                    assert(nv[a] == kv[a] && nv[b] == dir@);
                } else if a < i && b > i {
                    assert(nv[a] == kv[a] && nv[b] == kv[b - 1]);
                    if a < b - 1 {
                    } else {
                        // a == b - 1 == i - 1 < i: kv[a] < dir@ <= kv[i] == kv[b-1]
                    }
                } else if a == i {
                    assert(nv[a] == dir@ && nv[b] == kv[b - 1]);
                    assert(i <= b - 1 < kv.len());
                    assert(seq_le(dir@, kv[i as int]));
                    if dir@ == kv[i as int] {
                        assert(false);
                    }
                    if b - 1 == i {
                    } else {
                        lemma_seq_lt_trans(dir@, kv[i as int], kv[b - 1]);
                    }
                } else {
                    assert(nv[a] == kv[a - 1] && nv[b] == kv[b - 1]);
                }
            }
            assert forall|x: Seq<char>| kv.contains(x) implies nv.contains(x) by {
                let j = choose|j: int| 0 <= j < kv.len() && kv[j] == x;
                if j < i {
                    assert(nv[j] == x);
                } else {
                    assert(nv[j + 1] == x);
                }
            }
            assert forall|x: Seq<char>| nv.contains(x) implies kv.contains(x) || x == dir@ by {
                let j = choose|j: int| 0 <= j < nv.len() && nv[j] == x;
                if j < i {
                    assert(kv[j] == x);
                } else if j == i {
                } else {
                    assert(kv[j - 1] == x);
                }
            }
            assert(nv[i as int] == dir@);
            assert(nv.contains(dir@));
        }
        std::mem::swap(&mut dirs, &mut self.known_directories);
    }

    /// Feeds the index the directories one shallow filesystem walk found.
    /// Paths the exclude patterns suppress are dropped; the rest join the
    /// sorted set; the update generation advances by one.
    pub fn note_directories(&mut self, dirs: &Vec<String>)
        requires
            old(self).generation() < u64::MAX,
        ensures
            final(self).generation() == old(self).generation() + 1,
            final(self).patterns() == old(self).patterns(),
            forall|x: Seq<char>|
                old(self).known().contains(x) ==> final(self).known().contains(x),
            forall|i: int|
                0 <= i < dirs@.len() && !excluded_by(old(self).patterns(), (#[trigger] dirs@[i])@)
                    ==> final(self).known().contains(dirs@[i]@),
            forall|x: Seq<char>|
                final(self).known().contains(x) ==> old(self).known().contains(x) || exists|i: int|
                    0 <= i < dirs@.len() && (#[trigger] dirs@[i])@ == x,
    {
        let mut i: usize = 0;
        while i < dirs.len()
            invariant
                i <= dirs.len(),
                self.generation() == old(self).generation(),
                self.patterns() == old(self).patterns(),
                forall|x: Seq<char>|
                    old(self).known().contains(x) ==> self.known().contains(x),
                forall|j: int|
                    0 <= j < i && !excluded_by(old(self).patterns(), (#[trigger] dirs@[j])@)
                        ==> self.known().contains(dirs@[j]@),
                forall|x: Seq<char>|
                    self.known().contains(x) ==> old(self).known().contains(x) || exists|j: int|
                        0 <= j < dirs@.len() && (#[trigger] dirs@[j])@ == x,
            decreases dirs.len() - i,
        {
            if !self.excludes(dirs[i].as_str()) {
                self.insert_sorted(dirs[i].as_str());
                proof {
                    assert((dirs@[i as int])@ == dirs@[i as int]@);
                }
            }
            i = i + 1;
        }
        proof {
            use_type_invariant(&*self);
        }
        self.num_updates = self.num_updates + 1;
    }
}

} // verus!

verus! {

impl DirectoryFinder {
    /// Looks up suggestions for a path fragment: the first `max_results`
    /// known paths that are lexicographically at or after the fragment —
    /// with paths holding a dot suppressed unless the fragment itself
    /// holds one — in lexicographic order, together with the update
    /// generation, so a consumer can discard batches that arrive out of
    /// order.
    pub fn suggestions(&self, starting_fragment: &str, max_results: usize) -> (r: (
        Vec<String>,
        u64,
    ))
        ensures
            ({
                let cands = self.known().filter(
                    |e: Seq<char>| suggestion_candidate(starting_fragment@, e),
                );
                r.1 == self.generation() && r.0@.map_values(|s: String| s@) == (if cands.len()
                    <= max_results {
                    cands
                } else {
                    cands.take(max_results as int)
                })
            }),
    {
        let ghost pred = |e: Seq<char>| suggestion_candidate(starting_fragment@, e);
        let ghost kv = self.known();
        let fragment_has_dot = str_contains_char(starting_fragment, '.');
        let len = self.known_directories.len();
        let mut out: Vec<String> = Vec::new();
        let mut i: usize = 0;
        proof {
            reveal(Seq::filter);
            assert(kv.take(0) =~= Seq::<Seq<char>>::empty());
            assert(out@.map_values(|s: String| s@) =~= Seq::<Seq<char>>::empty());
        }
        loop
            invariant
                i <= len,
                len == self.known_directories@.len(),
                kv == self.known(),
                fragment_has_dot == contains_char(starting_fragment@, '.'),
                out@.map_values(|s: String| s@) == kv.take(i as int).filter(
                    |e: Seq<char>| suggestion_candidate(starting_fragment@, e),
                ),
                out@.len() <= max_results,
            ensures
                out@.map_values(|s: String| s@) == kv.take(i as int).filter(
                    |e: Seq<char>| suggestion_candidate(starting_fragment@, e),
                ),
                i <= len,
                i == len || out@.len() == max_results,
                out@.len() <= max_results,
                kv == self.known(),
                len == self.known_directories@.len(),
            decreases len - i,
        {
            if i == len {
                break;
            }
            if out.len() == max_results {
                break;
            }
            let ghost prev = out@.map_values(|s: String| s@);
            proof {
                assert(kv[i as int] == self.known_directories@[i as int]@);
            }
            let entry = &self.known_directories[i];
            let keep = str_le(starting_fragment, entry.as_str()) && !(str_contains_char(
                entry.as_str(),
                '.',
            ) && !fragment_has_dot);
            if keep {
                out.push(entry.clone());
                proof {
                    assert(out@.map_values(|s: String| s@) =~= prev.push(kv[i as int]));
                }
            }
            proof {
                reveal_with_fuel(Seq::filter, 3);
                assert(kv.take(i + 1) =~= kv.take(i as int) + seq![kv[i as int]]);
                Seq::<Seq<char>>::filter_distributes_over_add(
                    kv.take(i as int),
                    seq![kv[i as int]],
                    |e: Seq<char>| suggestion_candidate(starting_fragment@, e),
                );
                if suggestion_candidate(starting_fragment@, kv[i as int]) {
                    assert(seq![kv[i as int]].filter(
                        |e: Seq<char>| suggestion_candidate(starting_fragment@, e),
                    ) =~= seq![kv[i as int]]);
                } else {
                    assert(seq![kv[i as int]].filter(
                        |e: Seq<char>| suggestion_candidate(starting_fragment@, e),
                    ) =~= Seq::<Seq<char>>::empty());
                }
                assert(out@.map_values(|s: String| s@) =~= kv.take(i + 1).filter(
                    |e: Seq<char>| suggestion_candidate(starting_fragment@, e),
                ));
            }
            i = i + 1;
        }
        proof {
            let cands = kv.filter(|e: Seq<char>| suggestion_candidate(starting_fragment@, e));
            let ov = out@.map_values(|s: String| s@);
            if i == len {
                assert(kv.take(len as int) =~= kv);
                // the whole set was scanned; fewer candidates than the cap
                Seq::<Seq<char>>::lemma_filter_len(
                    kv,
                    |e: Seq<char>| suggestion_candidate(starting_fragment@, e),
                );
                assert(ov == cands);
            } else {
                // stopped at the cap: the candidates among the first `i`
                // entries are exactly the first `max_results` of them all
                assert(kv =~= kv.take(i as int) + kv.skip(i as int));
                Seq::<Seq<char>>::filter_distributes_over_add(
                    kv.take(i as int),
                    kv.skip(i as int),
                    |e: Seq<char>| suggestion_candidate(starting_fragment@, e),
                );
                let tail = kv.skip(i as int).filter(
                    |e: Seq<char>| suggestion_candidate(starting_fragment@, e),
                );
                assert(cands == ov + tail);
                assert(cands.take(max_results as int) =~= ov);
                if cands.len() <= max_results {
                    assert(tail.len() == 0);
                    assert(cands =~= ov);
                }
            }
        }
        (out, self.num_updates)
    }
}

} // verus!
