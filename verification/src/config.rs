//! In-memory model of the tool's global configuration scope: a mapping
//! from configuration key to string value, read and written one key at
//! a time. The caller that talks to the real tool keeps this model and
//! the tool's own store in step; everything the identity workflow
//! decides about configuration values is verified against this model.

use vstd::prelude::*;

use crate::kv::{kv_map, kv_unique, lemma_kv_contains, lemma_kv_index, lemma_kv_push,
    lemma_kv_update};
use crate::text::str_eq;

verus! {

/// The configuration key that holds the identity name.
pub open spec fn user_name_key() -> Seq<char> {
    "user.name"@
}

/// The configuration key that holds the identity email.
pub open spec fn user_email_key() -> Seq<char> {
    "user.email"@
}

/// The two identity keys are distinct, so setting one never disturbs
/// the other.
pub proof fn lemma_identity_keys_distinct()
    ensures
        user_name_key() != user_email_key(),
{
    reveal_strlit("user.name");
    reveal_strlit("user.email");
    assert(user_name_key().len() == 9);
    assert(user_email_key().len() == 10);
}

/// What a read of key `k` observes in configuration map `m`.
pub open spec fn config_get(m: Map<Seq<char>, Seq<char>>, k: Seq<char>) -> Option<Seq<char>> {
    if m.contains_key(k) {
        Some(m[k])
    } else {
        None
    }
}

/// One `key = value` binding of the global configuration.
pub struct ConfigEntry {
    pub key: String,
    pub value: String,
}

/// The bindings as key/value pairs of character sequences.
pub open spec fn config_kv(s: Seq<ConfigEntry>) -> Seq<(Seq<char>, Seq<char>)> {
    s.map(|i: int, e: ConfigEntry| (e.key@, e.value@))
}

/// The global configuration scope, modelled as a list of bindings with
/// pairwise distinct keys and viewed as a map.
pub struct ConfigState {
    entries: Vec<ConfigEntry>,
}

impl View for ConfigState {
    type V = Map<Seq<char>, Seq<char>>;

    closed spec fn view(&self) -> Map<Seq<char>, Seq<char>> {
        kv_map(config_kv(self.entries@))
    }
}

impl ConfigState {
    /// Well-formedness: no configuration key is bound twice.
    pub closed spec fn wf(&self) -> bool {
        kv_unique(config_kv(self.entries@))
    }

    /// A configuration with no key set.
    pub fn new() -> (r: ConfigState)
        ensures
            r.wf(),
            r@ == Map::<Seq<char>, Seq<char>>::empty(),
    {
        ConfigState { entries: Vec::new() }
    }

    /// The position of `key` among the bindings, if it is bound.
    fn find_key(&self, key: &str) -> (r: Option<usize>)
        ensures
            match r {
                Some(i) => i < self.entries@.len() && self.entries@[i as int].key@ == key@,
                None => forall|j: int| 0 <= j < self.entries@.len()
                    ==> self.entries@[j].key@ != key@,
            },
    {
        let n = self.entries.len();
        let mut i: usize = 0;
        while i < n
            invariant
                n == self.entries@.len(),
                i <= n,
                forall|j: int| 0 <= j < i ==> self.entries@[j].key@ != key@,
            decreases n - i,
        {
            if str_eq(self.entries[i].key.as_str(), key) {
                return Some(i);
            }
            i += 1;
        }
        None
    }

    /// The currently configured value for `key`, or nothing if unset.
    pub fn get(&self, key: &str) -> (r: Option<&String>)
        requires
            self.wf(),
        ensures
            match r {
                Some(v) => self@.contains_key(key@) && v@ == self@[key@],
                None => !self@.contains_key(key@),
            },
    {
        let s = Ghost(config_kv(self.entries@));
        match self.find_key(key) {
            Some(i) => {
                proof {
                    assert(s@[i as int] == (self.entries@[i as int].key@,
                        self.entries@[i as int].value@));
                    lemma_kv_index(s@, i as int);
                }
                Some(&self.entries[i].value)
            },
            None => {
                proof {
                    lemma_kv_contains(s@, key@);
                    assert(forall|j: int| 0 <= j < s@.len() ==> #[trigger] s@[j].0 != key@);
                }
                None
            },
        }
    }

    /// Writes `key = value`, inserting the binding or overwriting the
    /// one already present.
    pub fn set(&mut self, key: &str, value: &str)
        requires
            old(self).wf(),
        ensures
            final(self).wf(),
            final(self)@ == old(self)@.insert(key@, value@),
    {
        let idx = self.find_key(key);
        let entry = ConfigEntry { key: key.to_owned(), value: value.to_owned() };
        let ghost s0 = config_kv(self.entries@);
        match idx {
            Some(i) => {
                self.entries[i] = entry;
                proof {
                    let s1 = config_kv(self.entries@);
                    assert(s1 =~= s0.update(i as int, (key@, value@)));
                    lemma_kv_update(s0, i as int, (key@, value@));
                    assert(forall|j: int| 0 <= j < s1.len()
                        ==> #[trigger] s1[j].0 == s0[j].0);
                }
            },
            None => {
                self.entries.push(entry);
                proof {
                    let s1 = config_kv(self.entries@);
                    assert(s1 =~= s0.push((key@, value@)));
                    lemma_kv_push(s0, (key@, value@));
                    assert(forall|j: int| 0 <= j < s0.len()
                        ==> #[trigger] s0[j].0 != key@);
                }
            },
        }
    }
}

/// Writes the two identity keys of the global scope: `user.name` to
/// `name` and `user.email` to `email`.
pub fn configure_git(cfg: &mut ConfigState, name: &str, email: &str)
    requires
        old(cfg).wf(),
    ensures
        final(cfg).wf(),
        final(cfg)@ == old(cfg)@.insert(user_name_key(), name@).insert(user_email_key(), email@),
{
    cfg.set("user.name", name);
    cfg.set("user.email", email);
}

} // verus!
