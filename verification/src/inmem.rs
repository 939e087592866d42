//! The in-memory reference backend.
//!
//! Records live in a process-local vector of key/record entries with
//! pairwise-distinct keys; the [`crate::Repository`] contract is stated over
//! the map of contents that this vector represents.

use vstd::prelude::*;
use vstd::pervasive::VecAdditionalExecFns;

use crate::Cas;
use crate::Error;
use crate::Repository;
use crate::StoreModel;
use crate::INITIAL_TOKEN;

verus! {

/// A stored record: a document together with its current token.
pub struct CasDoc<T> {
    cas: Cas,
    content: T,
}

impl<T> CasDoc<T> {
    /// The token this record was committed at.
    pub closed spec fn spec_cas(&self) -> Cas {
        self.cas
    }

    /// The stored document.
    pub closed spec fn spec_content(&self) -> T {
        self.content
    }

    /// Pairs a document with a token.
    pub fn new(content: T, cas: Cas) -> (r: Self)
        ensures
            r.spec_cas() == cas,
            r.spec_content() == content,
    {
        Self { cas, content }
    }
}

/// Whether no two entries of `s` carry the same key.
spec fn keys_distinct<T>(s: Seq<(String, CasDoc<T>)>) -> bool {
    forall|i: int, j: int| 0 <= i < j < s.len() ==> s[i].0@ != s[j].0@
}

/// Whether some entry of `s` carries the key `k`.
spec fn has_key<T>(s: Seq<(String, CasDoc<T>)>, k: Seq<char>) -> bool {
    exists|i: int| 0 <= i < s.len() && s[i].0@ == k
}

/// The record held by the entry of `s` that carries `k`, as a model pair.
spec fn record_at<T>(s: Seq<(String, CasDoc<T>)>, k: Seq<char>) -> (T, u32) {
    let i = choose|i: int| 0 <= i < s.len() && s[i].0@ == k;
    (s[i].1.content, s[i].1.cas@)
}

/// The store contents that an entry sequence represents.
spec fn seq_store<T>(s: Seq<(String, CasDoc<T>)>) -> StoreModel<T> {
    Map::new(|k: Seq<char>| has_key(s, k), |k: Seq<char>| record_at(s, k))
}

/// With distinct keys, the entry at index `i` is what the represented store
/// holds under that entry's key.
proof fn lemma_store_at<T>(s: Seq<(String, CasDoc<T>)>, i: int)
    requires
        keys_distinct(s),
        0 <= i < s.len(),
    ensures
        seq_store(s).contains_key(s[i].0@),
        seq_store(s)[s[i].0@] == (s[i].1.content, s[i].1.cas@),
{
    let k = s[i].0@;
    assert(has_key(s, k));
    let j = choose|j: int| 0 <= j < s.len() && s[j].0@ == k;
    assert(j == i);
}

/// A key carried by no entry is absent from the represented store.
proof fn lemma_store_absent<T>(s: Seq<(String, CasDoc<T>)>, k: Seq<char>)
    requires
        !has_key(s, k),
    ensures
        !seq_store(s).contains_key(k),
{
}

/// Appending an entry under a fresh key keeps the keys distinct and inserts
/// the entry's record into the represented store.
proof fn lemma_store_push<T>(s: Seq<(String, CasDoc<T>)>, e: (String, CasDoc<T>))
    requires
        keys_distinct(s),
        !has_key(s, e.0@),
    ensures
        keys_distinct(s.push(e)),
        seq_store(s.push(e)) == seq_store(s).insert(e.0@, (e.1.content, e.1.cas@)),
{
    let s2 = s.push(e);
    assert forall|i: int, j: int| 0 <= i < j < s2.len() implies s2[i].0@ != s2[j].0@ by {
        if j < s.len() {
            assert(s2[i] == s[i] && s2[j] == s[j]);
        } else {
            assert(s2[j] == e && s2[i] == s[i]);
            assert(!(0 <= i < s.len() && s[i].0@ == e.0@));
        }
    }
    let m1 = seq_store(s2);
    let m2 = seq_store(s).insert(e.0@, (e.1.content, e.1.cas@));
    assert forall|k: Seq<char>| m1.contains_key(k) implies m2.contains_key(k) && m1[k] == m2[k] by {
        let i = choose|i: int| 0 <= i < s2.len() && s2[i].0@ == k;
        lemma_store_at(s2, i);
        if i < s.len() {
            assert(s2[i] == s[i]);
            lemma_store_at(s, i);
            assert(k != e.0@);
        } else {
            assert(s2[i] == e);
        }
    }
    assert forall|k: Seq<char>| m2.contains_key(k) implies m1.contains_key(k) by {
        if k == e.0@ {
            assert(s2[s.len() as int].0@ == k);
            assert(has_key(s2, k));
        } else {
            let i = choose|i: int| 0 <= i < s.len() && s[i].0@ == k;
            assert(0 <= i < s2.len() && s2[i].0@ == k);
            assert(has_key(s2, k));
        }
    }
    assert(m1 =~= m2);
}

/// Replacing the entry at index `i` by one carrying the same key keeps the
/// keys distinct and overwrites that key's record in the represented store.
proof fn lemma_store_set<T>(s: Seq<(String, CasDoc<T>)>, i: int, e: (String, CasDoc<T>))
    requires
        keys_distinct(s),
        0 <= i < s.len(),
        e.0@ == s[i].0@,
    ensures
        keys_distinct(s.update(i, e)),
        seq_store(s.update(i, e)) == seq_store(s).insert(e.0@, (e.1.content, e.1.cas@)),
{
    let s2 = s.update(i, e);
    assert forall|x: int, y: int| 0 <= x < y < s2.len() implies s2[x].0@ != s2[y].0@ by {
        assert(s2[x].0@ == s[x].0@ && s2[y].0@ == s[y].0@);
    }
    let m1 = seq_store(s2);
    let m2 = seq_store(s).insert(e.0@, (e.1.content, e.1.cas@));
    assert forall|k: Seq<char>| m1.contains_key(k) implies m2.contains_key(k) && m1[k] == m2[k] by {
        let j = choose|j: int| 0 <= j < s2.len() && s2[j].0@ == k;
        lemma_store_at(s2, j);
        if j == i {
            assert(s2[j] == e);
        } else {
            assert(s2[j] == s[j]);
            lemma_store_at(s, j);
            assert(k != e.0@);
        }
    }
    assert forall|k: Seq<char>| m2.contains_key(k) implies m1.contains_key(k) by {
        if k == e.0@ {
            assert(s2[i].0@ == k);
            assert(has_key(s2, k));
        } else {
            let j = choose|j: int| 0 <= j < s.len() && s[j].0@ == k;
            assert(j != i);
            assert(0 <= j < s2.len() && s2[j].0@ == k);
            assert(has_key(s2, k));
        }
    }
    assert(m1 =~= m2);
}

/// Removing the entry at index `i` keeps the keys distinct and removes that
/// entry's key from the represented store.
proof fn lemma_store_remove<T>(s: Seq<(String, CasDoc<T>)>, i: int)
    requires
        keys_distinct(s),
        0 <= i < s.len(),
    ensures
        keys_distinct(s.remove(i)),
        seq_store(s.remove(i)) == seq_store(s).remove(s[i].0@),
{
    let s2 = s.remove(i);
    s.remove_ensures(i);
    assert forall|x: int, y: int| 0 <= x < y < s2.len() implies s2[x].0@ != s2[y].0@ by {
        let x0: int = if x < i { x } else { x + 1 };
        let y0: int = if y < i { y } else { y + 1 };
        assert(s2[x] == s[x0] && s2[y] == s[y0]);
    }
    let k0 = s[i].0@;
    let m1 = seq_store(s2);
    let m2 = seq_store(s).remove(k0);
    assert forall|k: Seq<char>| m1.contains_key(k) implies m2.contains_key(k) && m1[k] == m2[k] by {
        let j = choose|j: int| 0 <= j < s2.len() && s2[j].0@ == k;
        lemma_store_at(s2, j);
        let j0: int = if j < i { j } else { j + 1 };
        assert(s2[j] == s[j0]);
        lemma_store_at(s, j0);
        assert(j0 != i);
        assert(k != k0);
    }
    assert forall|k: Seq<char>| m2.contains_key(k) implies m1.contains_key(k) by {
        assert(k != k0);
        let j0 = choose|j0: int| 0 <= j0 < s.len() && s[j0].0@ == k;
        assert(j0 != i);
        let j: int = if j0 < i { j0 } else { j0 - 1 };
        assert(s2[j] == s[j0]);
        assert(has_key(s2, k));
    }
    assert(m1 =~= m2);
}

/// In-memory backend: a process-local association of keys to records.
pub struct Repo<T: Copy> {
    data: Vec<(String, CasDoc<T>)>,
}

impl<T: Copy> Repo<T> {
    /// An empty backend.
    pub fn new() -> (r: Self)
        ensures
            r.inv(),
            r.store() == StoreModel::<T>::empty(),
    {
        let r = Repo { data: Vec::new() };
        proof {
            assert(r.store() =~= StoreModel::<T>::empty());
        }
        r
    }

    /// The index of the entry carrying `key`, if one does.
    fn find_index(&self, key: &str) -> (r: Option<usize>)
        ensures
            match r {
                Some(i) => i < self.data@.len() && self.data@[i as int].0@ == key@,
                None => !has_key(self.data@, key@),
            },
    {
        let k: String = key.to_owned();
        let n = self.data.len();
        let mut i: usize = 0;
        while i < n
            invariant
                n == self.data@.len(),
                i <= n,
                k@ == key@,
                forall|j: int| 0 <= j < i ==> self.data@[j].0@ != key@,
            decreases n - i,
        {
            if self.data[i].0 == k {
                return Some(i);
            }
            i = i + 1;
        }
        None
    }
}

impl<T: Copy> Repository<T> for Repo<T> {
    /// Each key occurs in at most one entry, so the entry sequence determines
    /// the represented store contents entry by entry.
    closed spec fn inv(&self) -> bool {
        keys_distinct(self.data@)
    }

    closed spec fn store(&self) -> StoreModel<T> {
        seq_store(self.data@)
    }

    fn create(&mut self, key: String, doc: T) -> (r: Result<Cas, Error>) {
        match self.find_index(key.as_str()) {
            Some(i) => {
                proof {
                    lemma_store_at(self.data@, i as int);
                }
                let cur = self.data[i].1.cas;
                Err(Error::Cas(cur))
            },
            None => {
                let e = (key, CasDoc::new(doc, Cas::new(INITIAL_TOKEN)));
                proof {
                    lemma_store_absent(self.data@, e.0@);
                    lemma_store_push(self.data@, e);
                }
                self.data.push(e);
                Ok(Cas::new(INITIAL_TOKEN))
            },
        }
    }

    fn find(&mut self, key: &str) -> (r: Result<Option<(T, Cas)>, Error>) {
        match self.find_index(key) {
            Some(i) => {
                proof {
                    lemma_store_at(self.data@, i as int);
                }
                let d = self.data[i].1.content;
                let c = self.data[i].1.cas;
                Ok(Some((d, c)))
            },
            None => {
                proof {
                    lemma_store_absent(self.data@, key@);
                }
                Ok(None)
            },
        }
    }

    fn update(&mut self, key: &str, doc: T, cas: Cas) -> (r: Result<Cas, Error>) {
        match self.find_index(key) {
            None => {
                proof {
                    lemma_store_absent(self.data@, key@);
                }
                Err(Error::NotFound)
            },
            Some(i) => {
                proof {
                    lemma_store_at(self.data@, i as int);
                }
                let cur = self.data[i].1.cas;
                if cur.value() == cas.value() {
                    let ks = self.data[i].0.clone();
                    let nt = cas.value() + 1;
                    let e = (ks, CasDoc::new(doc, Cas::new(nt)));
                    proof {
                        lemma_store_set(self.data@, i as int, e);
                    }
                    self.data.set(i, e);
                    Ok(Cas::new(nt))
                } else {
                    Err(Error::Cas(cur))
                }
            },
        }
    }

    fn delete(&mut self, key: &str, cas: Cas) -> (r: Result<Option<()>, Error>) {
        match self.find_index(key) {
            None => {
                proof {
                    lemma_store_absent(self.data@, key@);
                }
                Ok(None)
            },
            Some(i) => {
                proof {
                    lemma_store_at(self.data@, i as int);
                }
                let cur = self.data[i].1.cas;
                if cur.value() == cas.value() {
                    proof {
                        lemma_store_remove(self.data@, i as int);
                    }
                    let _ = self.data.remove(i);
                    Ok(Some(()))
                } else {
                    Err(Error::Cas(cur))
                }
            },
        }
    }
}

} // verus!
