//! The keychain: the secrets of a store, kept as a list of `(key, value)`
//! entries in strictly increasing key order, and the checks on store files.
use vstd::prelude::*;
use vstd::string::StringSliceAdditionalSpecFns;
use zeroize::Zeroize;
use crate::crypto::{decrypt_payload, encrypt_payload, opened_payload, CryptoError};
use crate::order::{compare_keys, key_lt, lemma_key_lt_irreflexive, lemma_key_lt_transitive, KeyOrder};

verus! {

/// The store format version this library reads and writes.
pub const FORMAT_VERSION: u32 = 1;

/// Largest keychain file, in bytes (16 MiB).
pub const MAX_FILE_SIZE: u64 = 16777216;

/// The entries of a store, as `(key, value)` character sequences.
pub open spec fn entries_view(entries: Seq<(String, String)>) -> Seq<(Seq<char>, Seq<char>)> {
    entries.map_values(|e: (String, String)| (e.0@, e.1@))
}

/// Keys strictly increase along the entries.
pub open spec fn sorted_keys(s: Seq<(Seq<char>, Seq<char>)>) -> bool {
    forall|i: int, j: int| 0 <= i < j < s.len() ==> key_lt(#[trigger] s[i].0, #[trigger] s[j].0)
}

/// No key occurs twice among the entries.
pub open spec fn unique_keys(s: Seq<(Seq<char>, Seq<char>)>) -> bool {
    forall|i: int, j: int| 0 <= i < j < s.len() ==> #[trigger] s[i].0 != #[trigger] s[j].0
}

/// The map that a list of entries with distinct keys stands for.
pub open spec fn map_of(s: Seq<(Seq<char>, Seq<char>)>) -> Map<Seq<char>, Seq<char>>
    decreases s.len(),
{
    if s.len() == 0 {
        Map::empty()
    } else {
        map_of(s.drop_first()).insert(s[0].0, s[0].1)
    }
}

/// Sorted entries have distinct keys.
pub proof fn lemma_sorted_unique(s: Seq<(Seq<char>, Seq<char>)>)
    requires
        sorted_keys(s),
    ensures
        unique_keys(s),
{
    assert forall|i: int, j: int| 0 <= i < j < s.len() implies #[trigger] s[i].0 != #[trigger] s[j].0 by {
        lemma_key_lt_irreflexive(s[i].0);
    }
}

/// Keys stay distinct when the first entry is dropped.
pub proof fn lemma_unique_drop_first(s: Seq<(Seq<char>, Seq<char>)>)
    requires
        unique_keys(s),
        s.len() > 0,
    ensures
        unique_keys(s.drop_first()),
{
    let t = s.drop_first();
    assert forall|a: int, b: int| 0 <= a < b < t.len() implies #[trigger] t[a].0 != #[trigger] t[b].0 by {
        assert(s[a + 1].0 != s[b + 1].0);
    }
}

/// A key is in the map exactly when some entry has it.
pub proof fn lemma_map_of_contains(s: Seq<(Seq<char>, Seq<char>)>, k: Seq<char>)
    ensures
        map_of(s).contains_key(k) <==> exists|i: int| 0 <= i < s.len() && #[trigger] s[i].0 == k,
    decreases s.len(),
{
    if s.len() > 0 {
        lemma_map_of_contains(s.drop_first(), k);
        if map_of(s.drop_first()).contains_key(k) {
            let i = choose|i: int| 0 <= i < s.len() - 1 && #[trigger] s.drop_first()[i].0 == k;
            assert(s[i + 1].0 == k);
        }
        if exists|i: int| 0 <= i < s.len() && #[trigger] s[i].0 == k {
            let i = choose|i: int| 0 <= i < s.len() && #[trigger] s[i].0 == k;
            if i > 0 {
                assert(s.drop_first()[i - 1].0 == k);
            }
        }
    }
}

/// With distinct keys, each entry's key maps to its value.
pub proof fn lemma_map_of_value(s: Seq<(Seq<char>, Seq<char>)>, i: int)
    requires
        unique_keys(s),
        0 <= i < s.len(),
    ensures
        map_of(s).contains_key(s[i].0),
        map_of(s)[s[i].0] == s[i].1,
    decreases s.len(),
{
    if i > 0 {
        let t = s.drop_first();
        lemma_unique_drop_first(s);
        lemma_map_of_value(t, i - 1);
        assert(s[0].0 != s[i].0);
    }
}

/// With distinct keys, the map has as many keys as there are entries.
pub proof fn lemma_map_of_len(s: Seq<(Seq<char>, Seq<char>)>)
    requires
        unique_keys(s),
    ensures
        map_of(s).dom().finite(),
        map_of(s).len() == s.len(),
    decreases s.len(),
{
    if s.len() > 0 {
        let t = s.drop_first();
        lemma_unique_drop_first(s);
        lemma_map_of_len(t);
        lemma_map_of_contains(t, s[0].0);
        if map_of(t).contains_key(s[0].0) {
            let i = choose|i: int| 0 <= i < t.len() && #[trigger] t[i].0 == s[0].0;
            assert(s[i + 1].0 == s[0].0);
        }
    }
}

/// Inserting an entry with a new key anywhere adds that key to the map.
pub proof fn lemma_map_of_insert(s: Seq<(Seq<char>, Seq<char>)>, i: int, e: (Seq<char>, Seq<char>))
    requires
        0 <= i <= s.len(),
        forall|j: int| 0 <= j < s.len() ==> #[trigger] s[j].0 != e.0,
    ensures
        map_of(s.insert(i, e)) == map_of(s).insert(e.0, e.1),
    decreases s.len(),
{
    if i == 0 {
        assert(s.insert(0, e).drop_first() =~= s);
    } else {
        let t = s.drop_first();
        assert(s.insert(i, e).drop_first() =~= t.insert(i - 1, e));
        assert forall|j: int| 0 <= j < t.len() implies #[trigger] t[j].0 != e.0 by {
            assert(s[j + 1].0 != e.0);
        }
        lemma_map_of_insert(t, i - 1, e);
        assert(s[0].0 != e.0);
        assert(map_of(s.insert(i, e)) =~= map_of(s).insert(e.0, e.1));
    }
}

/// Removing the entry at `i` removes its key from the map.
pub proof fn lemma_map_of_remove(s: Seq<(Seq<char>, Seq<char>)>, i: int)
    requires
        unique_keys(s),
        0 <= i < s.len(),
    ensures
        map_of(s.remove(i)) == map_of(s).remove(s[i].0),
    decreases s.len(),
{
    let t = s.drop_first();
    lemma_unique_drop_first(s);
    if i == 0 {
        assert(s.remove(0) =~= t);
        lemma_map_of_contains(t, s[0].0);
        if map_of(t).contains_key(s[0].0) {
            let j = choose|j: int| 0 <= j < t.len() && #[trigger] t[j].0 == s[0].0;
            assert(s[j + 1].0 == s[0].0);
        }
        assert(map_of(s.remove(0)) =~= map_of(s).remove(s[0].0));
    } else {
        assert(s.remove(i).drop_first() =~= t.remove(i - 1));
        lemma_map_of_remove(t, i - 1);
        assert(s[0].0 != s[i].0);
        assert(map_of(s.remove(i)) =~= map_of(s).remove(s[i].0));
    }
}

/// The map that inserting the entries one after another, into an empty map, gives.
pub open spec fn map_from_entries(s: Seq<(Seq<char>, Seq<char>)>) -> Map<Seq<char>, Seq<char>>
    decreases s.len(),
{
    if s.len() == 0 {
        Map::empty()
    } else {
        map_from_entries(s.drop_last()).insert(s.last().0, s.last().1)
    }
}

/// Inserting entries after a first one: the first entry counts only where no
/// later entry has its key.
pub proof fn lemma_map_from_entries_prepend(e: (Seq<char>, Seq<char>), t: Seq<(Seq<char>, Seq<char>)>)
    ensures
        map_from_entries(seq![e] + t) == (if map_from_entries(t).contains_key(e.0) {
            map_from_entries(t)
        } else {
            map_from_entries(t).insert(e.0, e.1)
        }),
    decreases t.len(),
{
    let u = seq![e] + t;
    if t.len() == 0 {
        assert(u.drop_last() =~= Seq::<(Seq<char>, Seq<char>)>::empty());
        assert(u.len() == 1 && u.last() == e);
        assert(map_from_entries(u.drop_last()) == Map::<Seq<char>, Seq<char>>::empty());
        assert(map_from_entries(u) =~= Map::<Seq<char>, Seq<char>>::empty().insert(e.0, e.1));
    } else {
        let t2 = t.drop_last();
        assert(u.drop_last() =~= seq![e] + t2);
        assert(u.last() == t.last());
        lemma_map_from_entries_prepend(e, t2);
        assert(map_from_entries(u) =~= (if map_from_entries(t).contains_key(e.0) {
            map_from_entries(t)
        } else {
            map_from_entries(t).insert(e.0, e.1)
        }));
    }
}

/// Zeroizes every key and value of a list of entries.
fn zeroize_entries(entries: Vec<(String, String)>) {
    let mut rest = entries;
    while rest.len() > 0
        decreases rest.len(),
    {
        let (mut k, mut v) = rest.pop().unwrap();
        zeroize_string(&mut k);
        zeroize_string(&mut v);
    }
}

/// `keys` lists the keys of `m`: each key once, in strictly increasing order.
pub open spec fn lists_keys_in_order(m: Map<Seq<char>, Seq<char>>, keys: Seq<Seq<char>>) -> bool {
    &&& keys.len() == m.len()
    &&& forall|i: int| 0 <= i < keys.len() ==> m.contains_key(#[trigger] keys[i])
    &&& forall|k: Seq<char>| m.contains_key(k) ==> exists|i: int| 0 <= i < keys.len() && #[trigger] keys[i] == k
    &&& forall|i: int, j: int| 0 <= i < j < keys.len() ==> key_lt(#[trigger] keys[i], #[trigger] keys[j])
}

/// Errors of reading and writing a keychain store.
#[derive(Debug, Clone, Copy, PartialEq, Eq, Structural)]
pub enum StoreError {
    /// The file, or the file that would be written, exceeds [`MAX_FILE_SIZE`].
    TooLarge,
    /// The store has a format version other than [`FORMAT_VERSION`].
    UnsupportedVersion(u32),
    /// Decryption or encryption failed.
    Crypto(CryptoError),
}

/// Calls `Zeroize::zeroize` (zeroize 1) on a string.
/// Claimed: the string's bytes are overwritten with zeros and it is left empty.
#[verifier::external_body]
pub(crate) fn zeroize_string(s: &mut String)
    ensures
        final(s)@ == Seq::<char>::empty(),
{
    s.zeroize();
}

/// The format version and the secrets of a keychain file.
struct Store {
    version: u32,
    secrets: Vec<(String, String)>,
}

/// An in-memory keychain: a map from secret names to secret values.
pub struct Keychain {
    store: Store,
}

impl View for Keychain {
    type V = Map<Seq<char>, Seq<char>>;

    closed spec fn view(&self) -> Map<Seq<char>, Seq<char>> {
        map_of(entries_view(self.store.secrets@))
    }
}

impl Keychain {
    #[verifier::type_invariant]
    closed spec fn well_formed(self) -> bool {
        &&& self.store.version == FORMAT_VERSION
        &&& sorted_keys(entries_view(self.store.secrets@))
    }

    /// An empty keychain.
    pub fn new() -> (kc: Keychain)
        ensures
            kc@ == Map::<Seq<char>, Seq<char>>::empty(),
    {
        let kc = Keychain { store: Store { version: FORMAT_VERSION, secrets: Vec::new() } };
        assert(entries_view(kc.store.secrets@) =~= Seq::empty());
        kc
    }

    /// Index of the first entry whose key is not below `key`, and whether that
    /// entry has `key` itself.
    fn position(entries: &Vec<(String, String)>, key: &str) -> (r: (usize, bool))
        requires
            sorted_keys(entries_view(entries@)),
        ensures
            r.0 <= entries.len(),
            forall|j: int| 0 <= j < r.0 ==> key_lt(#[trigger] entries@[j].0@, key@),
            r.1 <==> (r.0 < entries.len() && entries@[r.0 as int].0@ == key@),
            !r.1 && r.0 < entries.len() ==> key_lt(key@, entries@[r.0 as int].0@),
            forall|j: int| 0 <= j < entries.len() ==> (#[trigger] entries@[j].0@ == key@ <==> (r.1 && j == r.0)),
    {
        let ghost ev = entries_view(entries@);
        let mut i: usize = 0;
        while i < entries.len()
            invariant
                i <= entries.len(),
                ev == entries_view(entries@),
                sorted_keys(ev),
                forall|j: int| 0 <= j < i ==> key_lt(#[trigger] entries@[j].0@, key@),
            decreases entries.len() - i,
        {
            match compare_keys(entries[i].0.as_str(), key) {
                KeyOrder::Less => {
                    i = i + 1;
                },
                KeyOrder::Equal => {
                    proof {
                        assert forall|j: int| 0 <= j < entries.len() implies (#[trigger] entries@[j].0@ == key@ <==> j == i) by {
                            if j < i {
                                lemma_key_lt_irreflexive(key@);
                            }
                            if j > i {
                                assert(key_lt(ev[i as int].0, ev[j].0));
                                lemma_key_lt_irreflexive(key@);
                            }
                        }
                    }
                    return (i, true);
                },
                KeyOrder::Greater => {
                    proof {
                        assert forall|j: int| 0 <= j < entries.len() implies #[trigger] entries@[j].0@ != key@ by {
                            if j < i {
                                lemma_key_lt_irreflexive(key@);
                            }
                            if j == i {
                                lemma_key_lt_irreflexive(key@);
                            }
                            if j > i {
                                assert(key_lt(ev[i as int].0, ev[j].0));
                                lemma_key_lt_transitive(key@, ev[i as int].0, ev[j].0);
                                lemma_key_lt_irreflexive(key@);
                            }
                        }
                    }
                    return (i, false);
                },
            }
        }
        proof {
            assert forall|j: int| 0 <= j < entries.len() implies #[trigger] entries@[j].0@ != key@ by {
                lemma_key_lt_irreflexive(key@);
            }
        }
        (i, false)
    }

    /// The value stored under `key`, if any.
    pub fn get(&self, key: &str) -> (r: Option<&String>)
        ensures
            match r {
                Some(v) => self@.contains_key(key@) && self@[key@] == v@,
                None => !self@.contains_key(key@),
            },
    {
        proof {
            use_type_invariant(self);
        }
        let ghost ev = entries_view(self.store.secrets@);
        let (i, found) = Self::position(&self.store.secrets, key);
        proof {
            lemma_sorted_unique(ev);
            lemma_map_of_contains(ev, key@);
        }
        if found {
            proof {
                lemma_map_of_value(ev, i as int);
            }
            Some(&self.store.secrets[i].1)
        } else {
            None
        }
    }

    /// Stores `value` under `key`, replacing (and zeroizing) any previous value.
    pub fn set(&mut self, key: &str, value: String)
        ensures
            final(self)@ == old(self)@.insert(key@, value@),
    {
        proof {
            use_type_invariant(&*self);
        }
        let ghost old_view = self@;
        let mut entries: Vec<(String, String)> = Vec::new();
        std::mem::swap(&mut entries, &mut self.store.secrets);
        let ghost ev = entries_view(entries@);
        assert(old_view == map_of(ev));
        proof {
            lemma_sorted_unique(ev);
        }
        let (i, found) = Self::position(&entries, key);
        if found {
            let (name, mut previous) = entries.remove(i);
            zeroize_string(&mut previous);
            let ghost name_view = name@;
            entries.insert(i, (name, value));
            proof {
                let nv = entries_view(entries@);
                assert(nv =~= ev.update(i as int, (key@, value@)));
                assert(ev.remove(i as int).insert(i as int, (key@, value@)) =~= nv);
                lemma_map_of_remove(ev, i as int);
                assert forall|j: int| 0 <= j < ev.remove(i as int).len() implies #[trigger] ev.remove(i as int)[j].0 != key@ by {
                    if j < i {
                        assert(ev.remove(i as int)[j] == ev[j]);
                    } else {
                        assert(ev.remove(i as int)[j] == ev[j + 1]);
                    }
                }
                lemma_map_of_insert(ev.remove(i as int), i as int, (key@, value@));
                assert(map_of(nv) =~= map_of(ev).insert(key@, value@));
                assert(sorted_keys(nv)) by {
                    assert forall|a: int, b: int| 0 <= a < b < nv.len() implies key_lt(#[trigger] nv[a].0, #[trigger] nv[b].0) by {
                        assert(nv[a].0 == ev[a].0);
                        assert(nv[b].0 == ev[b].0);
                    }
                }
            }
        } else {
            let name = key.to_owned();
            entries.insert(i, (name, value));
            proof {
                let nv = entries_view(entries@);
                assert(nv =~= ev.insert(i as int, (key@, value@)));
                lemma_map_of_insert(ev, i as int, (key@, value@));
                assert(sorted_keys(nv)) by {
                    assert forall|a: int, b: int| 0 <= a < b < nv.len() implies key_lt(#[trigger] nv[a].0, #[trigger] nv[b].0) by {
                        if b < i {
                            assert(nv[a] == ev[a] && nv[b] == ev[b]);
                        } else if b == i {
                            assert(nv[a] == ev[a]);
                        } else if a == i {
                            assert(nv[b] == ev[b - 1]);
                            assert(key_lt(key@, ev[i as int].0));
                            if b - 1 > i {
                                lemma_key_lt_transitive(key@, ev[i as int].0, ev[b - 1].0);
                            }
                        } else if a < i {
                            assert(nv[a] == ev[a] && nv[b] == ev[b - 1]);
                        } else {
                            assert(nv[a] == ev[a - 1] && nv[b] == ev[b - 1]);
                        }
                    }
                }
            }
        }
        self.store.secrets = entries;
    }

    /// Removes `key` and its value (both zeroized); tells whether it was there.
    pub fn delete(&mut self, key: &str) -> (r: bool)
        ensures
            r == old(self)@.contains_key(key@),
            final(self)@ == old(self)@.remove(key@),
    {
        proof {
            use_type_invariant(&*self);
        }
        let ghost old_view = self@;
        let mut entries: Vec<(String, String)> = Vec::new();
        std::mem::swap(&mut entries, &mut self.store.secrets);
        let ghost ev = entries_view(entries@);
        proof {
            lemma_sorted_unique(ev);
            lemma_map_of_contains(ev, key@);
        }
        let (i, found) = Self::position(&entries, key);
        if found {
            let (mut name, mut value) = entries.remove(i);
            zeroize_string(&mut name);
            zeroize_string(&mut value);
            proof {
                let nv = entries_view(entries@);
                assert(nv =~= ev.remove(i as int));
                lemma_map_of_remove(ev, i as int);
                assert(sorted_keys(nv)) by {
                    assert forall|a: int, b: int| 0 <= a < b < nv.len() implies key_lt(#[trigger] nv[a].0, #[trigger] nv[b].0) by {
                        if b < i {
                            assert(nv[a] == ev[a] && nv[b] == ev[b]);
                        } else if a < i {
                            assert(nv[a] == ev[a] && nv[b] == ev[b + 1]);
                        } else {
                            assert(nv[a] == ev[a + 1] && nv[b] == ev[b + 1]);
                        }
                    }
                }
            }
            self.store.secrets = entries;
            true
        } else {
            assert(map_of(ev).remove(key@) =~= map_of(ev));
            self.store.secrets = entries;
            false
        }
    }

    /// Zeroizes every key and value and empties the keychain.
    pub fn wipe(&mut self)
        ensures
            final(self)@ == Map::<Seq<char>, Seq<char>>::empty(),
    {
        proof {
            use_type_invariant(&*self);
        }
        let mut entries: Vec<(String, String)> = Vec::new();
        std::mem::swap(&mut entries, &mut self.store.secrets);
        while entries.len() > 0
            invariant
                true,
            decreases entries.len(),
        {
            let (mut k, mut v) = entries.pop().unwrap();
            zeroize_string(&mut k);
            zeroize_string(&mut v);
        }
        assert(entries_view(self.store.secrets@) =~= Seq::empty());
    }

    /// The number of secrets.
    pub fn len(&self) -> (r: usize)
        ensures
            r == self@.len(),
    {
        proof {
            use_type_invariant(self);
            lemma_sorted_unique(entries_view(self.store.secrets@));
            lemma_map_of_len(entries_view(self.store.secrets@));
        }
        self.store.secrets.len()
    }

    /// The secret names, in increasing order.
    pub fn keys(&self) -> (r: Vec<&str>)
        ensures
            lists_keys_in_order(self@, r@.map_values(|k: &str| k@)),
    {
        proof {
            use_type_invariant(self);
        }
        let ghost ev = entries_view(self.store.secrets@);
        proof {
            lemma_sorted_unique(ev);
            lemma_map_of_len(ev);
        }
        let mut r: Vec<&str> = Vec::new();
        let mut i: usize = 0;
        while i < self.store.secrets.len()
            invariant
                i <= self.store.secrets.len(),
                ev == entries_view(self.store.secrets@),
                r@.len() == i,
                forall|j: int| 0 <= j < i ==> (#[trigger] r@[j])@ == ev[j].0,
            decreases self.store.secrets.len() - i,
        {
            r.push(self.store.secrets[i].0.as_str());
            i = i + 1;
        }
        proof {
            let ks = r@.map_values(|k: &str| k@);
            assert forall|j: int| 0 <= j < ks.len() implies self@.contains_key(#[trigger] ks[j]) by {
                lemma_map_of_value(ev, j);
            }
            assert forall|k: Seq<char>| self@.contains_key(k) implies exists|j: int| 0 <= j < ks.len() && #[trigger] ks[j] == k by {
                lemma_map_of_contains(ev, k);
                let j = choose|j: int| 0 <= j < ev.len() && #[trigger] ev[j].0 == k;
                assert(ks[j] == k);
            }
            assert forall|a: int, b: int| 0 <= a < b < ks.len() implies key_lt(#[trigger] ks[a], #[trigger] ks[b]) by {
                assert(key_lt(ev[a].0, ev[b].0));
            }
        }
        r
    }

    /// Copies of the entries, in increasing key order, for writing out.
    pub fn entries(&self) -> (r: Vec<(String, String)>)
        ensures
            sorted_keys(entries_view(r@)),
            map_of(entries_view(r@)) == self@,
    {
        proof {
            use_type_invariant(self);
        }
        let ghost ev = entries_view(self.store.secrets@);
        let mut r: Vec<(String, String)> = Vec::new();
        let mut i: usize = 0;
        while i < self.store.secrets.len()
            invariant
                i <= self.store.secrets.len(),
                ev == entries_view(self.store.secrets@),
                entries_view(r@) == ev.take(i as int),
                r@.len() == i,
            decreases self.store.secrets.len() - i,
        {
            let ghost prev = r@;
            let k = self.store.secrets[i].0.clone();
            let v = self.store.secrets[i].1.clone();
            assert(k@ == ev[i as int].0 && v@ == ev[i as int].1);
            r.push((k, v));
            proof {
                assert(r@ == prev.push((k, v)));
                assert forall|j: int| 0 <= j < i + 1 implies #[trigger] entries_view(r@)[j] == ev.take(i + 1)[j] by {
                    if j < i {
                        assert(entries_view(r@)[j] == entries_view(prev)[j]);
                    }
                }
            }
            i = i + 1;
            assert(entries_view(r@) =~= ev.take(i as int));
        }
        assert(ev.take(i as int) =~= ev);
        r
    }

    /// A keychain read from a store file's version and secrets.
    ///
    /// Fails exactly when the version is not [`FORMAT_VERSION`]; otherwise
    /// holds the secrets, a later entry winning over an earlier one with the
    /// same key.
    pub fn from_store(version: u32, secrets: Vec<(String, String)>) -> (r: Result<Keychain, StoreError>)
        ensures
            version != FORMAT_VERSION ==> r == Err::<Keychain, StoreError>(StoreError::UnsupportedVersion(version)),
            version == FORMAT_VERSION ==> r is Ok,
            r matches Ok(kc) ==> kc@ == map_from_entries(entries_view(secrets@)),
    {
        if version != FORMAT_VERSION {
            zeroize_entries(secrets);
            return Err(StoreError::UnsupportedVersion(version));
        }
        let ghost ev = entries_view(secrets@);
        let mut kc = Keychain::new();
        let mut rest = secrets;
        assert(ev.skip(rest.len() as int) =~= Seq::<(Seq<char>, Seq<char>)>::empty());
        assert(ev.take(rest.len() as int) =~= ev);
        while rest.len() > 0
            invariant
                rest.len() <= ev.len(),
                entries_view(rest@) == ev.take(rest.len() as int),
                kc@ == map_from_entries(ev.skip(rest.len() as int)),
            decreases rest.len(),
        {
            let ghost before = rest@;
            let (mut k, mut v) = rest.pop().unwrap();
            let ghost i = rest.len() as int;
            proof {
                assert(entries_view(before)[i] == ev[i]);
                assert(entries_view(rest@) =~= ev.take(i));
                assert(ev.skip(i) =~= seq![ev[i]] + ev.skip(i + 1));
                lemma_map_from_entries_prepend(ev[i], ev.skip(i + 1));
            }
            if kc.get(k.as_str()).is_none() {
                kc.set(k.as_str(), v);
            } else {
                zeroize_string(&mut v);
            }
            zeroize_string(&mut k);
        }
        assert(ev.skip(0) =~= ev);
        Ok(kc)
    }
}

/// What opening a keychain file's bytes with `password` (its UTF-8 bytes)
/// gives: the plaintext store, or why not.
pub open spec fn opened_file(file: Seq<u8>, password: Seq<u8>) -> Result<Seq<u8>, StoreError> {
    if file.len() > MAX_FILE_SIZE {
        Err(StoreError::TooLarge)
    } else {
        match opened_payload(file, password) {
            Ok(p) => Ok(p),
            Err(e) => Err(StoreError::Crypto(e)),
        }
    }
}

/// The views of a store result.
pub open spec fn store_bytes_view(r: Result<Vec<u8>, StoreError>) -> Result<Seq<u8>, StoreError> {
    match r {
        Ok(v) => Ok(v@),
        Err(e) => Err(e),
    }
}

/// Bytes that encryption adds to a plaintext store: salt, nonce and tag.
pub const FILE_OVERHEAD: u64 = 60;

/// Checks the size of a keychain file's bytes and decrypts them.
pub fn open_store_file(file: &[u8], password: &str) -> (r: Result<Vec<u8>, StoreError>)
    requires
        password.spec_bytes().len() <= 0xFFFF_FFFF,
    ensures
        store_bytes_view(r) == opened_file(file@, password.spec_bytes()),
{
    if file.len() as u64 > MAX_FILE_SIZE {
        return Err(StoreError::TooLarge);
    }
    match decrypt_payload(file, password) {
        Ok(p) => Ok(p),
        Err(e) => Err(StoreError::Crypto(e)),
    }
}

/// Encrypts a plaintext store into the bytes of a keychain file, refusing a
/// file larger than [`MAX_FILE_SIZE`].
///
/// The file opens, with the same password, to the plaintext.
pub fn seal_store_file(plaintext: &[u8], password: &str) -> (r: Result<Vec<u8>, StoreError>)
    requires
        password.spec_bytes().len() <= 0xFFFF_FFFF,
    ensures
        plaintext.len() + FILE_OVERHEAD > MAX_FILE_SIZE <==> r == Err::<Vec<u8>, StoreError>(StoreError::TooLarge),
        r matches Err(e) ==> e == StoreError::TooLarge || e == StoreError::Crypto(CryptoError::RandomUnavailable),
        r matches Ok(out) ==> out@.len() == plaintext.len() + FILE_OVERHEAD,
        r matches Ok(out) ==> opened_file(out@, password.spec_bytes()) == Ok::<Seq<u8>, StoreError>(plaintext@),
{
    if plaintext.len() as u64 > MAX_FILE_SIZE - FILE_OVERHEAD {
        return Err(StoreError::TooLarge);
    }
    match encrypt_payload(plaintext, password) {
        Ok(out) => Ok(out),
        Err(e) => Err(StoreError::Crypto(e)),
    }
}

/// Reading a key after setting it gives the value set; other keys keep theirs.
pub proof fn law_get_after_set(m: Map<Seq<char>, Seq<char>>, k: Seq<char>, v: Seq<char>, other: Seq<char>)
    requires
        other != k,
    ensures
        m.insert(k, v).contains_key(k),
        m.insert(k, v)[k] == v,
        m.insert(k, v).contains_key(other) == m.contains_key(other),
        m.contains_key(other) ==> m.insert(k, v)[other] == m[other],
{
}

/// Setting a key twice keeps only the second value.
pub proof fn law_set_overwrites(m: Map<Seq<char>, Seq<char>>, k: Seq<char>, v1: Seq<char>, v2: Seq<char>)
    ensures
        m.insert(k, v1).insert(k, v2) == m.insert(k, v2),
{
    assert(m.insert(k, v1).insert(k, v2) =~= m.insert(k, v2));
}

/// After a delete the key is gone and the other keys keep their values.
pub proof fn law_delete_removes(m: Map<Seq<char>, Seq<char>>, k: Seq<char>, other: Seq<char>)
    requires
        other != k,
    ensures
        !m.remove(k).contains_key(k),
        m.remove(k).contains_key(other) == m.contains_key(other),
        m.contains_key(other) ==> m.remove(k)[other] == m[other],
{
}

/// Deleting a key that is not there changes nothing.
pub proof fn law_delete_missing_is_noop(m: Map<Seq<char>, Seq<char>>, k: Seq<char>)
    requires
        !m.contains_key(k),
    ensures
        m.remove(k) == m,
{
    assert(m.remove(k) =~= m);
}

/// Setting a new key and deleting it again gives the keychain back.
pub proof fn law_set_then_delete(m: Map<Seq<char>, Seq<char>>, k: Seq<char>, v: Seq<char>)
    requires
        !m.contains_key(k),
    ensures
        m.insert(k, v).remove(k) == m,
{
    assert(m.insert(k, v).remove(k) =~= m);
}

/// Reading back a store's secrets in key order rebuilds the same keychain.
pub proof fn law_entries_rebuild(s: Seq<(Seq<char>, Seq<char>)>)
    requires
        sorted_keys(s),
    ensures
        map_from_entries(s) == map_of(s),
    decreases s.len(),
{
    lemma_sorted_unique(s);
    if s.len() > 0 {
        let t = s.drop_last();
        assert(sorted_keys(t)) by {
            assert forall|a: int, b: int| 0 <= a < b < t.len() implies key_lt(#[trigger] t[a].0, #[trigger] t[b].0) by {
                assert(key_lt(s[a].0, s[b].0));
            }
        }
        law_entries_rebuild(t);
        assert(t =~= s.remove(s.len() - 1));
        lemma_map_of_remove(s, s.len() - 1);
        lemma_map_of_value(s, s.len() - 1);
        assert(map_of(s) =~= map_of(s).remove(s.last().0).insert(s.last().0, s.last().1));
    }
}

} // verus!
