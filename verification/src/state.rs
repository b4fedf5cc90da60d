//! The sync state: a mapping from canonical local artifact name to its
//! record, held as a vector with pairwise-distinct keys and viewed as a
//! `Map<Seq<char>, RemoteSdk>`.

use vstd::prelude::*;
use crate::sdk::{RemoteSdk, local_name_of};

verus! {

/// The canonical key under which a record is tracked: its local name.
pub open spec fn key_of(r: RemoteSdk) -> Seq<char> {
    local_name_of(r.filename@)
}

pub open spec fn seq_has_key(s: Seq<RemoteSdk>, k: Seq<char>) -> bool {
    exists|i: int| 0 <= i < s.len() && key_of(s[i]) == k
}

pub open spec fn index_of_key(s: Seq<RemoteSdk>, k: Seq<char>) -> int {
    choose|i: int| 0 <= i < s.len() && key_of(s[i]) == k
}

/// The mapping that a key-distinct sequence of records represents.
pub open spec fn map_of(s: Seq<RemoteSdk>) -> Map<Seq<char>, RemoteSdk> {
    Map::new(|k: Seq<char>| seq_has_key(s, k), |k: Seq<char>| s[index_of_key(s, k)])
}

pub open spec fn unique_keys(s: Seq<RemoteSdk>) -> bool {
    forall|i: int, j: int| 0 <= i < j < s.len() ==> key_of(s[i]) != key_of(s[j])
}

/// With pairwise-distinct keys, the record at index `i` is exactly what the
/// represented mapping holds under that record's key.
pub proof fn lemma_map_index(s: Seq<RemoteSdk>, i: int)
    requires
        unique_keys(s),
        0 <= i < s.len(),
    ensures
        map_of(s).contains_key(key_of(s[i])),
        map_of(s)[key_of(s[i])] == s[i],
{
    assert(seq_has_key(s, key_of(s[i])));
    let j = index_of_key(s, key_of(s[i]));
    assert(0 <= j < s.len() && key_of(s[j]) == key_of(s[i]));
    if i < j {
        assert(key_of(s[i]) != key_of(s[j]));
    } else if j < i {
        assert(key_of(s[j]) != key_of(s[i]));
    }
}

/// Replacing the record at `i` by one with the same key updates the
/// represented mapping at that key and keeps the keys distinct.
pub proof fn lemma_set_same_key(s: Seq<RemoteSdk>, i: int, x: RemoteSdk)
    requires
        unique_keys(s),
        0 <= i < s.len(),
        key_of(x) == key_of(s[i]),
    ensures
        unique_keys(s.update(i, x)),
        map_of(s.update(i, x)) == map_of(s).insert(key_of(x), x),
{
    let t = s.update(i, x);
    assert forall|j: int| 0 <= j < t.len() implies key_of(t[j]) == key_of(s[j]) by {
        if j == i {
        }
    }
    assert(unique_keys(t));
    let m1 = map_of(t);
    let m2 = map_of(s).insert(key_of(x), x);
    assert forall|k: Seq<char>| m1.contains_key(k) implies m2.contains_key(k) && m1[k] == m2[k] by {
        let j = index_of_key(t, k);
        assert(0 <= j < t.len() && key_of(t[j]) == k);
        assert(seq_has_key(s, k));
        if k == key_of(x) {
            lemma_map_index(t, i);
            assert(m1[k] == x);
        } else {
            assert(j != i);
            assert(t[j] == s[j]);
            lemma_map_index(s, j);
            lemma_map_index(t, j);
        }
    }
    assert forall|k: Seq<char>| m2.contains_key(k) implies m1.contains_key(k) by {
        if k == key_of(x) {
            assert(key_of(t[i]) == k);
            assert(seq_has_key(t, k));
        } else {
            let j = index_of_key(s, k);
            assert(0 <= j < s.len() && key_of(s[j]) == k);
            assert(key_of(t[j]) == k);
        }
    }
    assert(m1 =~= m2);
}

/// Appending a record whose key is fresh inserts it into the represented
/// mapping and keeps the keys distinct.
pub proof fn lemma_push_fresh_key(s: Seq<RemoteSdk>, x: RemoteSdk)
    requires
        unique_keys(s),
        !seq_has_key(s, key_of(x)),
    ensures
        unique_keys(s.push(x)),
        map_of(s.push(x)) == map_of(s).insert(key_of(x), x),
{
    let t = s.push(x);
    assert forall|i: int, j: int| 0 <= i < j < t.len() implies key_of(t[i]) != key_of(t[j]) by {
        if j == s.len() {
            assert(t[i] == s[i]);
            assert(key_of(s[i]) != key_of(x)) by {
                if key_of(s[i]) == key_of(x) {
                    assert(seq_has_key(s, key_of(x)));
                }
            }
        } else {
            assert(t[i] == s[i] && t[j] == s[j]);
        }
    }
    assert(unique_keys(t));
    let m1 = map_of(t);
    let m2 = map_of(s).insert(key_of(x), x);
    assert(key_of(t[s.len() as int]) == key_of(x));
    assert(seq_has_key(t, key_of(x)));
    assert forall|k: Seq<char>| m1.contains_key(k) implies m2.contains_key(k) && m1[k] == m2[k] by {
        let j = index_of_key(t, k);
        assert(0 <= j < t.len() && key_of(t[j]) == k);
        if k == key_of(x) {
            lemma_map_index(t, s.len() as int);
            assert(m1[k] == x);
        } else {
            assert(j != s.len());
            assert(t[j] == s[j]);
            assert(seq_has_key(s, k));
            lemma_map_index(s, j);
            lemma_map_index(t, j);
        }
    }
    assert forall|k: Seq<char>| m2.contains_key(k) implies m1.contains_key(k) by {
        if k == key_of(x) {
        } else {
            let j = index_of_key(s, k);
            assert(0 <= j < s.len() && key_of(s[j]) == k);
            assert(key_of(t[j]) == k);
        }
    }
    assert(m1 =~= m2);
}

/// The durable snapshot of what should be present in the local mirror:
/// one record per canonical local name.
pub struct SyncState {
    pub sdks: Vec<RemoteSdk>,
}

impl View for SyncState {
    type V = Map<Seq<char>, RemoteSdk>;

    open spec fn view(&self) -> Map<Seq<char>, RemoteSdk> {
        map_of(self.sdks@)
    }
}

impl SyncState {
    /// Keys are pairwise distinct, so each local name is tracked by at
    /// most one record.
    pub open spec fn wf(self) -> bool {
        unique_keys(self.sdks@)
    }

    /// The empty state: what a first run starts from, when no state file
    /// has ever been written.
    pub fn new() -> (r: SyncState)
        ensures
            r.wf(),
            r@ == Map::<Seq<char>, RemoteSdk>::empty(),
            r.sdks@.len() == 0,
    {
        let r = SyncState { sdks: Vec::new() };
        proof {
            assert(r@ =~= Map::<Seq<char>, RemoteSdk>::empty());
        }
        r
    }

    /// The index of the record tracked under local name `filename`, if any.
    fn find_index(&self, filename: &String) -> (r: Option<usize>)
        ensures
            match r {
                Some(i) => i < self.sdks@.len() && key_of(self.sdks@[i as int]) == filename@,
                None => !seq_has_key(self.sdks@, filename@),
            },
    {
        let n = self.sdks.len();
        let mut i: usize = 0;
        while i < n
            invariant
                i <= n,
                n == self.sdks@.len(),
                forall|j: int| 0 <= j < i ==> key_of(self.sdks@[j]) != filename@,
            decreases n - i,
        {
            let name: String = self.sdks[i].local_filename().to_owned();
            if name == *filename {
                return Some(i);
            }
            i = i + 1;
        }
        None
    }

    /// The record tracked under local name `filename`, if any.
    pub fn get_sdk(&self, filename: &str) -> (r: Option<&RemoteSdk>)
        requires
            self.wf(),
        ensures
            match r {
                Some(sdk) => self@.contains_key(filename@) && *sdk == self@[filename@],
                None => !self@.contains_key(filename@),
            },
    {
        let q: String = filename.to_owned();
        match self.find_index(&q) {
            Some(i) => {
                proof {
                    lemma_map_index(self.sdks@, i as int);
                }
                Some(&self.sdks[i])
            },
            None => None,
        }
    }

    /// All tracked records, in no significant order.
    pub fn sdks(&self) -> (r: &Vec<RemoteSdk>)
        ensures
            r@ == self.sdks@,
    {
        &self.sdks
    }

    /// How many artifacts the state tracks.
    pub fn len(&self) -> (r: usize)
        requires
            self.wf(),
        ensures
            r == self.sdks@.len(),
            r == self@.dom().len(),
    {
        proof {
            lemma_len_dom(self.sdks@);
        }
        self.sdks.len()
    }

    /// Track `sdk` under its local name, replacing any record already
    /// tracked under that name (last write wins).
    pub fn insert(&mut self, sdk: RemoteSdk)
        requires
            old(self).wf(),
        ensures
            final(self).wf(),
            final(self)@ == old(self)@.insert(key_of(sdk), sdk),
    {
        let k: String = sdk.local_filename().to_owned();
        match self.find_index(&k) {
            Some(i) => {
                proof {
                    lemma_set_same_key(self.sdks@, i as int, sdk);
                }
                self.sdks.set(i, sdk);
            },
            None => {
                proof {
                    lemma_push_fresh_key(self.sdks@, sdk);
                }
                self.sdks.push(sdk);
            },
        }
    }
}

/// A key-distinct sequence represents a mapping with one key per element.
pub proof fn lemma_len_dom(s: Seq<RemoteSdk>)
    requires
        unique_keys(s),
    ensures
        map_of(s).dom().finite(),
        map_of(s).dom().len() == s.len(),
    decreases s.len(),
{
    if s.len() == 0 {
        assert(map_of(s).dom() =~= Set::<Seq<char>>::empty());
    } else {
        let prefix = s.drop_last();
        lemma_len_dom(prefix);
        assert(!seq_has_key(prefix, key_of(s.last()))) by {
            if seq_has_key(prefix, key_of(s.last())) {
                let j = index_of_key(prefix, key_of(s.last()));
                assert(0 <= j < prefix.len() && key_of(prefix[j]) == key_of(s.last()));
                assert(prefix[j] == s[j]);
                assert(key_of(s[j]) != key_of(s[s.len() - 1]));
            }
        }
        assert(map_of(s).dom() =~= map_of(prefix).dom().insert(key_of(s.last()))) by {
            assert forall|k: Seq<char>| seq_has_key(s, k) && k != key_of(s.last())
                implies seq_has_key(prefix, k) by {
                let j = index_of_key(s, k);
                assert(0 <= j < s.len() && key_of(s[j]) == k);
                assert(j != s.len() - 1);
                assert(prefix[j] == s[j]);
            }
            assert forall|k: Seq<char>| seq_has_key(prefix, k) implies seq_has_key(s, k) by {
                let j = index_of_key(prefix, k);
                assert(0 <= j < prefix.len() && key_of(prefix[j]) == k);
                assert(s[j] == prefix[j]);
            }
        }
        vstd::set::axiom_set_insert_len(map_of(prefix).dom(), key_of(s.last()));
        assert(!map_of(prefix).dom().contains(key_of(s.last())));
    }
}

} // verus!
