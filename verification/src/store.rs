//! The profile store: a mapping from profile name to identity profile,
//! persisted as a whole-file document. The filesystem and the document
//! encoding live with the caller; this module holds the verified store
//! semantics: the load policy, insert-or-overwrite, lookup, and the
//! application of a profile to the configuration model.

use vstd::prelude::*;

use crate::config::{configure_git, user_email_key, user_name_key, ConfigState};
use crate::errors::GitError;
use crate::kv::{kv_map, kv_unique, lemma_kv_contains, lemma_kv_index, lemma_kv_len,
    lemma_kv_push, lemma_kv_update};
use crate::text::str_eq;

verus! {

/// A named identity: the name and email one profile applies.
#[derive(Debug)]
pub struct GitProfile {
    pub name: String,
    pub email: String,
}

/// The value a profile denotes: its two fields as character sequences.
pub struct ProfileVal {
    pub name: Seq<char>,
    pub email: Seq<char>,
}

/// Shorthand for building a [`ProfileVal`] in contracts.
pub open spec fn profile_val(name: Seq<char>, email: Seq<char>) -> ProfileVal {
    ProfileVal { name: name, email: email }
}

impl View for GitProfile {
    type V = ProfileVal;

    open spec fn view(&self) -> ProfileVal {
        ProfileVal { name: self.name@, email: self.email@ }
    }
}

/// One stored entry: a profile under its profile name.
#[derive(Debug)]
pub struct ProfileRecord {
    pub key: String,
    pub profile: GitProfile,
}

/// The records as key/value pairs of character sequences.
pub open spec fn store_kv(s: Seq<ProfileRecord>) -> Seq<(Seq<char>, ProfileVal)> {
    s.map(|i: int, r: ProfileRecord| (r.key@, r.profile@))
}

/// The store itself: records with pairwise distinct profile names,
/// viewed as a map from profile name to profile value.
#[derive(Debug)]
pub struct ProfileStore {
    records: Vec<ProfileRecord>,
}

impl View for ProfileStore {
    type V = Map<Seq<char>, ProfileVal>;

    closed spec fn view(&self) -> Map<Seq<char>, ProfileVal> {
        kv_map(store_kv(self.records@))
    }
}

impl ProfileStore {
    /// Well-formedness: profile names are unique within the store.
    pub closed spec fn wf(&self) -> bool {
        kv_unique(store_kv(self.records@))
    }

    /// A store with no profiles.
    pub fn new() -> (r: ProfileStore)
        ensures
            r.wf(),
            r@ == Map::<Seq<char>, ProfileVal>::empty(),
    {
        ProfileStore { records: Vec::new() }
    }

    /// The position of `key` among the records, if present.
    fn find_key(&self, key: &str) -> (r: Option<usize>)
        ensures
            match r {
                Some(i) => i < self.records@.len() && self.records@[i as int].key@ == key@,
                None => forall|j: int| 0 <= j < self.records@.len()
                    ==> self.records@[j].key@ != key@,
            },
    {
        let n = self.records.len();
        let mut i: usize = 0;
        while i < n
            invariant
                n == self.records@.len(),
                i <= n,
                forall|j: int| 0 <= j < i ==> self.records@[j].key@ != key@,
            decreases n - i,
        {
            if str_eq(self.records[i].key.as_str(), key) {
                return Some(i);
            }
            i += 1;
        }
        None
    }

    /// Inserts `profile` under `profile_name`, overwriting any profile
    /// already stored under that name.
    pub fn insert(&mut self, profile_name: &str, profile: GitProfile)
        requires
            old(self).wf(),
        ensures
            final(self).wf(),
            final(self)@ == old(self)@.insert(profile_name@, profile@),
    {
        let idx = self.find_key(profile_name);
        let ghost pv = profile@;
        let record = ProfileRecord { key: profile_name.to_owned(), profile: profile };
        let ghost s0 = store_kv(self.records@);
        match idx {
            Some(i) => {
                self.records[i] = record;
                proof {
                    let s1 = store_kv(self.records@);
                    assert(s1 =~= s0.update(i as int, (profile_name@, pv)));
                    lemma_kv_update(s0, i as int, (profile_name@, pv));
                    assert(forall|j: int| 0 <= j < s1.len()
                        ==> #[trigger] s1[j].0 == s0[j].0);
                }
            },
            None => {
                self.records.push(record);
                proof {
                    let s1 = store_kv(self.records@);
                    assert(s1 =~= s0.push((profile_name@, pv)));
                    lemma_kv_push(s0, (profile_name@, pv));
                    assert(forall|j: int| 0 <= j < s0.len()
                        ==> #[trigger] s0[j].0 != profile_name@);
                }
            },
        }
    }

    /// The profile stored under `profile_name`, if any.
    pub fn lookup(&self, profile_name: &str) -> (r: Option<&GitProfile>)
        requires
            self.wf(),
        ensures
            match r {
                Some(p) => self@.contains_key(profile_name@) && p@ == self@[profile_name@],
                None => !self@.contains_key(profile_name@),
            },
    {
        let s = Ghost(store_kv(self.records@));
        match self.find_key(profile_name) {
            Some(i) => {
                proof {
                    assert(s@[i as int] == (self.records@[i as int].key@,
                        self.records@[i as int].profile@));
                    lemma_kv_index(s@, i as int);
                }
                Some(&self.records[i].profile)
            },
            None => {
                proof {
                    lemma_kv_contains(s@, profile_name@);
                    assert(forall|j: int| 0 <= j < s@.len()
                        ==> #[trigger] s@[j].0 != profile_name@);
                }
                None
            },
        }
    }

    /// How many profiles the store holds.
    pub fn len(&self) -> (n: usize)
        requires
            self.wf(),
        ensures
            n == self@.dom().len(),
    {
        proof {
            lemma_kv_len(store_kv(self.records@));
        }
        self.records.len()
    }

    /// The stored records, for a caller that writes the store out.
    pub fn records(&self) -> (r: &Vec<ProfileRecord>)
        requires
            self.wf(),
        ensures
            r@.len() == self@.dom().len(),
            forall|i: int| 0 <= i < r@.len()
                ==> self@.contains_key(#[trigger] r@[i].key@) && self@[r@[i].key@] == r@[i].profile@,
    {
        proof {
            lemma_kv_len(store_kv(self.records@));
            assert forall|i: int| 0 <= i < self.records@.len()
                implies self@.contains_key(#[trigger] self.records@[i].key@)
                    && self@[self.records@[i].key@] == self.records@[i].profile@ by {
                lemma_kv_index(store_kv(self.records@), i);
            }
        }
        &self.records
    }

    /// Builds a store from records read out of a persisted document,
    /// in order: on a repeated profile name the last record wins.
    pub fn from_records(records: Vec<ProfileRecord>) -> (r: ProfileStore)
        ensures
            r.wf(),
            r@ == kv_map(store_kv(records@)),
    {
        let ghost orig = records@;
        let mut rest = records;
        let mut store = ProfileStore::new();
        while rest.len() > 0
            invariant
                store.wf(),
                rest@.len() <= orig.len(),
                rest@ =~= orig.skip(orig.len() - rest@.len()),
                store@ == kv_map(store_kv(orig.take(orig.len() - rest@.len()))),
            decreases rest@.len(),
        {
            let ghost i = orig.len() - rest@.len();
            let record = rest.remove(0);
            proof {
                assert(record == orig[i]);
                assert(rest@ =~= orig.skip(i + 1));
            }
            let ProfileRecord { key, profile } = record;
            let ghost pv = profile@;
            store.insert(key.as_str(), profile);
            proof {
                let t0 = store_kv(orig.take(i));
                let t1 = store_kv(orig.take(i + 1));
                assert(t1 =~= t0.push((orig[i].key@, pv)));
                lemma_kv_push(t0, (orig[i].key@, pv));
            }
        }
        proof {
            assert(orig.take(orig.len() as int) =~= orig);
        }
        store
    }
}

/// What the caller found at the store's path: the file may be absent,
/// unreadable (with the text of the I/O error), present but not
/// decodable, or decoded into a store.
pub enum StoreFile {
    Absent,
    Unreadable(String),
    Corrupt,
    Loaded(ProfileStore),
}

/// Validity of what the caller hands in.
pub open spec fn store_file_wf(f: StoreFile) -> bool {
    match f {
        StoreFile::Loaded(s) => s.wf(),
        _ => true,
    }
}

/// The load policy: an absent file is an empty store, not an error; an
/// unreadable file is an I/O error; a file that did not decode is a
/// parse error, never silently discarded.
pub fn load_profiles(f: StoreFile) -> (r: Result<ProfileStore, GitError>)
    requires
        store_file_wf(f),
    ensures
        f is Absent ==> (r matches Ok(s) && s.wf() && s@ == Map::<Seq<char>, ProfileVal>::empty()),
        f matches StoreFile::Unreadable(m) ==> (r matches Err(GitError::IoError(m2)) && m2 == m),
        f is Corrupt ==> r matches Err(GitError::ParseError),
        f matches StoreFile::Loaded(s0) ==> (r matches Ok(s) && s == s0),
{
    match f {
        StoreFile::Absent => Ok(ProfileStore::new()),
        StoreFile::Unreadable(m) => Err(GitError::IoError(m)),
        StoreFile::Corrupt => Err(GitError::ParseError),
        StoreFile::Loaded(s) => Ok(s),
    }
}

/// Loads the store found in `f`, inserts or overwrites the profile
/// named `profile_name`, and returns the full store to be written
/// back.
pub fn create_profile(f: StoreFile, profile_name: &str, name: &str, email: &str) -> (r: Result<
    ProfileStore,
    GitError,
>)
    requires
        store_file_wf(f),
    ensures
        f is Absent ==> (r matches Ok(s) && s.wf() && s@ == Map::<Seq<char>, ProfileVal>::empty()
            .insert(profile_name@, profile_val(name@, email@))),
        f matches StoreFile::Unreadable(m) ==> (r matches Err(GitError::IoError(m2)) && m2 == m),
        f is Corrupt ==> r matches Err(GitError::ParseError),
        f matches StoreFile::Loaded(s0) ==> (r matches Ok(s) && s.wf() && s@ == s0@.insert(
            profile_name@,
            profile_val(name@, email@),
        )),
{
    let mut store = match load_profiles(f) {
        Ok(s) => s,
        Err(e) => {
            return Err(e);
        },
    };
    store.insert(
        profile_name,
        GitProfile { name: name.to_owned(), email: email.to_owned() },
    );
    Ok(store)
}

/// Loads the store found in `f` and applies the profile named
/// `profile_name` to the configuration: `user.name` takes the
/// profile's name and `user.email` its email. A name never created
/// fails with `NotFound` and leaves the configuration unchanged.
pub fn use_profile(f: StoreFile, cfg: &mut ConfigState, profile_name: &str) -> (r: Result<
    (),
    GitError,
>)
    requires
        store_file_wf(f),
        old(cfg).wf(),
    ensures
        final(cfg).wf(),
        f is Absent ==> (r matches Err(GitError::NotFound) && final(cfg)@ == old(cfg)@),
        f matches StoreFile::Unreadable(m) ==> (r matches Err(GitError::IoError(m2)) && m2 == m
            && final(cfg)@ == old(cfg)@),
        f is Corrupt ==> (r matches Err(GitError::ParseError) && final(cfg)@ == old(cfg)@),
        f matches StoreFile::Loaded(s0) ==> (if s0@.contains_key(profile_name@) {
            r is Ok && final(cfg)@ == old(cfg)@.insert(user_name_key(), s0@[profile_name@].name)
                .insert(user_email_key(), s0@[profile_name@].email)
        } else {
            r matches Err(GitError::NotFound) && final(cfg)@ == old(cfg)@
        }),
{
    let store = match load_profiles(f) {
        Ok(s) => s,
        Err(e) => {
            return Err(e);
        },
    };
    match store.lookup(profile_name) {
        Some(p) => {
            configure_git(cfg, p.name.as_str(), p.email.as_str());
            Ok(())
        },
        None => Err(GitError::NotFound),
    }
}

/// Law: after creating profile `p` as `(name, email)` and then
/// applying it, the configuration reads back exactly that name under
/// `user.name` and that email under `user.email`, whatever the store
/// and the configuration held before.
pub proof fn lemma_use_after_create(
    store0: Map<Seq<char>, ProfileVal>,
    cfg0: Map<Seq<char>, Seq<char>>,
    p: Seq<char>,
    name: Seq<char>,
    email: Seq<char>,
)
    ensures
        ({
            let store1 = store0.insert(p, profile_val(name, email));
            let cfg1 = cfg0.insert(user_name_key(), store1[p].name).insert(
                user_email_key(),
                store1[p].email,
            );
            store1.contains_key(p) && crate::config::config_get(cfg1, user_name_key())
                == Some(name) && crate::config::config_get(cfg1, user_email_key()) == Some(email)
        }),
{
    crate::config::lemma_identity_keys_distinct();
}

} // verus!
