//! The store of what was created in the cloud: serialised resources by id.

use crate::registry::RegistryError;
use vstd::prelude::*;

verus! {

/// `std::io::Error`, carried inside `DatastoreError`.
#[verifier::external_type_specification]
#[verifier::external_body]
pub struct ExIoError(std::io::Error);

/// `bincode`'s error kind (`bincode::Error` is a box of it), carried inside `DatastoreError`.
#[verifier::external_type_specification]
#[verifier::external_body]
pub struct ExBincodeErrorKind(bincode::ErrorKind);

/// Why the datastore could not load, save, read or write a resource.
#[derive(Debug)]
pub enum DatastoreError {
    PoisonError,
    LoadError(String),
    IOError(std::io::Error),
    BincodeError(bincode::Error),
    JsonError(serde_json::Error),
    InsertionError,
    RegistryError(RegistryError),
}

} // verus!

verus! {

/// The resources recorded as created, serialised, by resource id. The storage that it is
/// loaded from and saved to is kept apart from it.
pub struct Datastore {
    entries: Vec<(String, Vec<u8>)>,
}

impl Datastore {
    /// No two entries share an id.
    #[verifier::type_invariant]
    closed spec fn keys_distinct(self) -> bool {
        forall|i: int, j: int|
            0 <= i < self.entries@.len() && 0 <= j < self.entries@.len() && i != j
                ==> #[trigger] self.entries@[i].0@ != #[trigger] self.entries@[j].0@
    }

    /// The ids of the entries, in the order in which they were first inserted.
    pub closed spec fn key_seq(self) -> Seq<Seq<char>> {
        self.entries@.map_values(|e: (String, Vec<u8>)| e.0@)
    }

    /// The contents: the bytes recorded for each id.
    pub closed spec fn contents(self) -> Map<Seq<char>, Seq<u8>> {
        Map::new(
            |k: Seq<char>| exists|i: int| 0 <= i < self.entries@.len() && self.entries@[i].0@ == k,
            |k: Seq<char>|
                self.entries@[choose|i: int|
                    0 <= i < self.entries@.len() && self.entries@[i].0@ == k].1@,
        )
    }

    proof fn lemma_entry(self, i: int)
        requires
            self.keys_distinct(),
            0 <= i < self.entries@.len(),
        ensures
            self.contents().contains_key(self.entries@[i].0@),
            self.contents()[self.entries@[i].0@] == self.entries@[i].1@,
            self.key_seq()[i] == self.entries@[i].0@,
    {
        let k = self.entries@[i].0@;
        let c = choose|c: int| 0 <= c < self.entries@.len() && self.entries@[c].0@ == k;
        assert(c == i);
    }

    proof fn lemma_absent(self, k: Seq<char>)
        requires
            forall|i: int| 0 <= i < self.entries@.len() ==> (#[trigger] self.entries@[i]).0@ != k,
        ensures
            !self.contents().contains_key(k),
    {
    }

    /// An empty datastore.
    pub fn new() -> (d: Self)
        ensures
            d.contents() == Map::<Seq<char>, Seq<u8>>::empty(),
            d.key_seq() == Seq::<Seq<char>>::empty(),
    {
        let d = Datastore { entries: Vec::new() };
        assert(d.contents() =~= Map::<Seq<char>, Seq<u8>>::empty());
        assert(d.key_seq() =~= Seq::<Seq<char>>::empty());
        d
    }

    fn find(&self, id: &String) -> (r: Option<usize>)
        ensures
            match r {
                Some(i) => i < self.entries@.len() && self.entries@[i as int].0@ == id@,
                None => forall|i: int|
                    0 <= i < self.entries@.len() ==> (#[trigger] self.entries@[i]).0@ != id@,
            },
    {
        let mut i: usize = 0;
        while i < self.entries.len()
            invariant
                i <= self.entries@.len(),
                forall|j: int| 0 <= j < i ==> (#[trigger] self.entries@[j]).0@ != id@,
            decreases self.entries@.len() - i,
        {
            if self.entries[i].0 == *id {
                return Some(i);
            }
            i = i + 1;
        }
        None
    }

    /// Whether a resource with this id is recorded.
    pub fn contains(&self, id: &String) -> (b: bool)
        ensures
            b == self.contents().contains_key(id@),
    {
        proof {
            use_type_invariant(self);
        }
        match self.find(id) {
            Some(i) => {
                proof {
                    self.lemma_entry(i as int);
                }
                true
            },
            None => false,
        }
    }

    /// The bytes recorded for this id, if any.
    pub fn get_bytes(&self, id: &String) -> (r: Option<&Vec<u8>>)
        ensures
            r is Some == self.contents().contains_key(id@),
            r matches Some(v) ==> v@ == self.contents()[id@],
    {
        proof {
            use_type_invariant(self);
        }
        match self.find(id) {
            Some(i) => {
                proof {
                    self.lemma_entry(i as int);
                }
                Some(&self.entries[i].1)
            },
            None => None,
        }
    }

    /// Records `value` under `id`, returning what was recorded there before.
    pub fn insert_bytes(&mut self, id: String, value: Vec<u8>) -> (r: Option<Vec<u8>>)
        ensures
            final(self).contents() == old(self).contents().insert(id@, value@),
            r is Some == old(self).contents().contains_key(id@),
            r matches Some(v) ==> v@ == old(self).contents()[id@],
            old(self).contents().contains_key(id@) ==> final(self).key_seq() == old(self).key_seq(),
            !old(self).contents().contains_key(id@) ==> final(self).key_seq() == old(
                self,
            ).key_seq().push(id@),
    {
        proof {
            use_type_invariant(&*self);
        }
        let ghost old_self = *self;
        match self.find(&id) {
            Some(i) => {
                proof {
                    old_self.lemma_entry(i as int);
                }
                let ghost k = id@;
                let ghost v = value@;
                let mut entries: Vec<(String, Vec<u8>)> = Vec::new();
                std::mem::swap(&mut entries, &mut self.entries);
                let removed = entries.remove(i);
                entries.insert(i, (id, value));
                proof {
                    let s = entries@;
                    assert(s =~= old_self.entries@.update(i as int, s[i as int]));
                    assert(forall|j: int| 0 <= j < s.len() && j != i ==> s[j] == old_self.entries@[j]);
                    assert forall|a: int, b: int|
                        0 <= a < s.len() && 0 <= b < s.len() && a != b implies #[trigger] s[a].0@
                        != #[trigger] s[b].0@ by {
                        if a == i {
                            assert(s[b] == old_self.entries@[b]);
                        } else if b == i {
                            assert(s[a] == old_self.entries@[a]);
                        } else {
                            assert(s[a] == old_self.entries@[a] && s[b] == old_self.entries@[b]);
                        }
                    }
                }
                self.entries = entries;
                proof {
                    let s = self.entries@;
                    assert(forall|j: int| 0 <= j < s.len() && j != i ==> s[j] == old_self.entries@[j]);
                    self.lemma_entry(i as int);
                    assert forall|key: Seq<char>|
                        #![auto]
                        self.contents().contains_key(key) == old_self.contents().insert(
                            k,
                            v,
                        ).contains_key(key) by {
                        if self.contents().contains_key(key) {
                            let j = choose|j: int| 0 <= j < s.len() && s[j].0@ == key;
                            if j != i {
                                old_self.lemma_entry(j);
                            }
                        }
                        if old_self.contents().contains_key(key) {
                            let j = choose|j: int|
                                0 <= j < old_self.entries@.len() && old_self.entries@[j].0@ == key;
                            if j != i {
                                self.lemma_entry(j);
                            }
                        }
                    }
                    assert forall|key: Seq<char>| #[trigger]
                        self.contents().contains_key(key) implies self.contents()[key]
                        == old_self.contents().insert(k, v)[key] by {
                        let j = choose|j: int| 0 <= j < s.len() && s[j].0@ == key;
                        self.lemma_entry(j);
                        if j != i {
                            old_self.lemma_entry(j);
                        }
                    }
                    assert(self.contents() =~= old_self.contents().insert(k, v));
                    assert(self.key_seq() =~= old_self.key_seq());
                }
                Some(removed.1)
            },
            None => {
                let ghost k = id@;
                let ghost v = value@;
                proof {
                    old_self.lemma_absent(k);
                }
                let mut entries: Vec<(String, Vec<u8>)> = Vec::new();
                std::mem::swap(&mut entries, &mut self.entries);
                entries.push((id, value));
                proof {
                    let s = entries@;
                    let n = old_self.entries@.len() as int;
                    assert(forall|j: int| 0 <= j < n ==> s[j] == old_self.entries@[j]);
                }
                self.entries = entries;
                proof {
                    let s = self.entries@;
                    let n = old_self.entries@.len() as int;
                    assert(forall|j: int| 0 <= j < n ==> s[j] == old_self.entries@[j]);
                    self.lemma_entry(n);
                    assert forall|key: Seq<char>|
                        #![auto]
                        self.contents().contains_key(key) == old_self.contents().insert(
                            k,
                            v,
                        ).contains_key(key) by {
                        if self.contents().contains_key(key) {
                            let j = choose|j: int| 0 <= j < s.len() && s[j].0@ == key;
                            if j != n {
                                old_self.lemma_entry(j);
                            }
                        }
                        if old_self.contents().contains_key(key) {
                            let j = choose|j: int|
                                0 <= j < old_self.entries@.len() && old_self.entries@[j].0@ == key;
                            self.lemma_entry(j);
                        }
                    }
                    assert forall|key: Seq<char>| #[trigger]
                        self.contents().contains_key(key) implies self.contents()[key]
                        == old_self.contents().insert(k, v)[key] by {
                        let j = choose|j: int| 0 <= j < s.len() && s[j].0@ == key;
                        self.lemma_entry(j);
                        if j != n {
                            old_self.lemma_entry(j);
                        }
                    }
                    assert(self.contents() =~= old_self.contents().insert(k, v));
                    assert(self.key_seq() =~= old_self.key_seq().push(k));
                }
                None
            },
        }
    }

    /// Forgets the resource recorded under `id`, returning its bytes.
    pub fn remove(&mut self, id: &String) -> (r: Option<Vec<u8>>)
        ensures
            final(self).contents() == old(self).contents().remove(id@),
            r is Some == old(self).contents().contains_key(id@),
            r matches Some(v) ==> v@ == old(self).contents()[id@],
            !old(self).contents().contains_key(id@) ==> final(self).key_seq() == old(self).key_seq(),
            old(self).contents().contains_key(id@) ==> exists|i: int|
                0 <= i < old(self).key_seq().len() && final(self).key_seq() == old(
                    self,
                ).key_seq().remove(i),
    {
        proof {
            use_type_invariant(&*self);
        }
        let ghost old_self = *self;
        match self.find(id) {
            Some(i) => {
                proof {
                    old_self.lemma_entry(i as int);
                }
                let mut entries: Vec<(String, Vec<u8>)> = Vec::new();
                std::mem::swap(&mut entries, &mut self.entries);
                let removed = entries.remove(i);
                proof {
                    let s = entries@;
                    let o = old_self.entries@;
                    assert(s =~= o.remove(i as int));
                    assert(forall|j: int| 0 <= j < i ==> s[j] == o[j]);
                    assert(forall|j: int| i <= j < s.len() ==> s[j] == o[j + 1]);
                    assert forall|a: int, b: int|
                        0 <= a < s.len() && 0 <= b < s.len() && a != b implies #[trigger] s[a].0@
                        != #[trigger] s[b].0@ by {
                        let oa = if a < i { a } else { a + 1 };
                        let ob = if b < i { b } else { b + 1 };
                        assert(s[a] == o[oa] && s[b] == o[ob]);
                    }
                }
                self.entries = entries;
                proof {
                    let s = self.entries@;
                    let o = old_self.entries@;
                    assert(forall|j: int| 0 <= j < i ==> s[j] == o[j]);
                    assert(forall|j: int| i <= j < s.len() ==> s[j] == o[j + 1]);
                    let k = id@;
                    assert forall|key: Seq<char>|
                        #![auto]
                        self.contents().contains_key(key) == old_self.contents().remove(
                            k,
                        ).contains_key(key) by {
                        if self.contents().contains_key(key) {
                            let j = choose|j: int| 0 <= j < s.len() && s[j].0@ == key;
                            let oj = if j < i { j } else { j + 1 };
                            assert(s[j] == o[oj]);
                            old_self.lemma_entry(oj);
                        }
                        if old_self.contents().contains_key(key) && key != k {
                            let j = choose|j: int| 0 <= j < o.len() && o[j].0@ == key;
                            assert(j != i);
                            let sj = if j < i { j } else { j - 1 };
                            assert(s[sj] == o[j]);
                            self.lemma_entry(sj);
                        }
                    }
                    assert forall|key: Seq<char>| #[trigger]
                        self.contents().contains_key(key) implies self.contents()[key]
                        == old_self.contents().remove(k)[key] by {
                        let j = choose|j: int| 0 <= j < s.len() && s[j].0@ == key;
                        let oj = if j < i { j } else { j + 1 };
                        assert(s[j] == o[oj]);
                        self.lemma_entry(j);
                        old_self.lemma_entry(oj);
                    }
                    assert(self.contents() =~= old_self.contents().remove(k));
                    assert(self.key_seq() =~= old_self.key_seq().remove(i as int));
                }
                Some(removed.1)
            },
            None => {
                proof {
                    old_self.lemma_absent(id@);
                    assert(self.contents() =~= old_self.contents().remove(id@));
                }
                None
            },
        }
    }

    /// The ids of all recorded resources, each once.
    pub fn keys(&self) -> (ks: Vec<String>)
        ensures
            ks@.map_values(|s: String| s@) == self.key_seq(),
            forall|k: Seq<char>|
                self.contents().contains_key(k) <==> #[trigger] self.key_seq().contains(k),
            self.key_seq().no_duplicates(),
    {
        proof {
            use_type_invariant(self);
        }
        let mut ks: Vec<String> = Vec::new();
        let mut i: usize = 0;
        while i < self.entries.len()
            invariant
                i <= self.entries@.len(),
                ks@.map_values(|s: String| s@) == self.key_seq().take(i as int),
            decreases self.entries@.len() - i,
        {
            let ghost old_ks = ks@;
            let key = self.entries[i].0.clone();
            ks.push(key);
            proof {
                assert(ks@ == old_ks.push(key));
                let m = ks@.map_values(|s: String| s@);
                let t = self.key_seq().take(i + 1);
                assert(self.key_seq().len() == self.entries@.len());
                assert(old_ks.map_values(|s: String| s@).len() == i);
                assert(m.len() == i + 1 && t.len() == i + 1);
                assert forall|j: int| 0 <= j < m.len() implies m[j] == t[j] by {
                    if j == i {
                        assert(m[j] == key@);
                        assert(t[j] == self.key_seq()[j]);
                    } else {
                        assert(m[j] == old_ks[j]@);
                        assert(old_ks.map_values(|s: String| s@)[j] == self.key_seq().take(
                            i as int,
                        )[j]);
                    }
                }
                assert(m =~= t);
            }
            i = i + 1;
        }
        proof {
            assert(self.key_seq().take(self.entries@.len() as int) =~= self.key_seq());
            assert forall|k: Seq<char>|
                self.contents().contains_key(k) <==> #[trigger] self.key_seq().contains(k) by {
                if self.contents().contains_key(k) {
                    let j = choose|j: int|
                        0 <= j < self.entries@.len() && self.entries@[j].0@ == k;
                    assert(self.key_seq()[j] == k);
                }
                if self.key_seq().contains(k) {
                    let j = choose|j: int| 0 <= j < self.key_seq().len() && self.key_seq()[j] == k;
                    assert(self.entries@[j].0@ == k);
                }
            }
            assert forall|a: int, b: int|
                0 <= a < self.key_seq().len() && 0 <= b < self.key_seq().len() && a != b
                    implies self.key_seq()[a] != self.key_seq()[b] by {
                assert(self.key_seq()[a] == self.entries@[a].0@);
                assert(self.key_seq()[b] == self.entries@[b].0@);
            }
        }
        ks
    }
}

} // verus!

verus! {

/// Law: what `insert_bytes` records under an id, `get_bytes` reads back; and `remove` of an
/// id that was not recorded before the insertion gives back the contents from before it.
pub proof fn law_insert_get_remove(
    before: Datastore,
    inserted: Datastore,
    removed: Datastore,
    id: Seq<char>,
    bytes: Seq<u8>,
)
    requires
        inserted.contents() == before.contents().insert(id, bytes),
        removed.contents() == inserted.contents().remove(id),
    ensures
        inserted.contents().contains_key(id) && inserted.contents()[id] == bytes,
        !removed.contents().contains_key(id),
        !before.contents().contains_key(id) ==> removed.contents() == before.contents(),
{
    if !before.contents().contains_key(id) {
        assert(removed.contents() =~= before.contents());
    }
}

} // verus!

verus! {

/// Where the datastore is kept between runs: a file, by its path.
#[derive(Debug, Clone)]
pub struct FileStorage {
    path: String,
}

impl FileStorage {
    /// The storage in the file at `path`.
    pub fn new(path: &str) -> (s: Self)
        ensures
            s.spec_path() == path@,
    {
        FileStorage { path: path.to_owned() }
    }

    /// The path of the file.
    pub closed spec fn spec_path(&self) -> Seq<char> {
        self.path@
    }

    /// The path of the file.
    pub fn path(&self) -> (p: &str)
        ensures
            p@ == self.spec_path(),
    {
        self.path.as_str()
    }
}

impl Default for FileStorage {
    /// The file `fpcloud.store` of the working directory.
    fn default() -> (s: Self)
        ensures
            s.spec_path() == "fpcloud.store"@,
    {
        FileStorage::new("fpcloud.store")
    }
}

} // verus!
