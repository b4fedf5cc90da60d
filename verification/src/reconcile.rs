//! The reconciliation algorithm: diff the last persisted sync state
//! against the freshly enumerated remote state, and derive the minimal
//! plan of fetch and remove operations that converges the local mirror to
//! the remote truth.

use vstd::prelude::*;
use crate::sdk::{RemoteSdk, record_matches};
use crate::state::{SyncState, key_of, seq_has_key, index_of_key, unique_keys, lemma_map_index,
    lemma_push_fresh_key};

verus! {

/// An artifact must be fetched: it is available remotely and is either
/// untracked locally or tracked by a record that no longer matches.
pub open spec fn needs_fetch(
    l: Map<Seq<char>, RemoteSdk>,
    r: Map<Seq<char>, RemoteSdk>,
    k: Seq<char>,
) -> bool {
    r.contains_key(k) && (!l.contains_key(k) || !record_matches(l[k], r[k]))
}

/// An artifact must be removed: it is tracked locally but no longer
/// available remotely.
pub open spec fn needs_remove(
    l: Map<Seq<char>, RemoteSdk>,
    r: Map<Seq<char>, RemoteSdk>,
    k: Seq<char>,
) -> bool {
    l.contains_key(k) && !r.contains_key(k)
}

pub open spec fn fetch_keys(
    l: Map<Seq<char>, RemoteSdk>,
    r: Map<Seq<char>, RemoteSdk>,
) -> Set<Seq<char>> {
    Set::new(|k: Seq<char>| needs_fetch(l, r, k))
}

pub open spec fn remove_keys(
    l: Map<Seq<char>, RemoteSdk>,
    r: Map<Seq<char>, RemoteSdk>,
) -> Set<Seq<char>> {
    Set::new(|k: Seq<char>| needs_remove(l, r, k))
}

/// The operations one sync run must perform: which records to fetch,
/// decompress and install, and which local files to delete.
pub struct SyncPlan {
    pub fetches: Vec<RemoteSdk>,
    pub removes: Vec<RemoteSdk>,
}

/// A plan is correct for local state `l` and remote state `r` when its
/// fetch list holds exactly one record per key that must be fetched — the
/// remote record under that key — and its remove list exactly one record
/// per key that must be removed — the local record under that key.
pub open spec fn plan_correct(
    p: SyncPlan,
    l: Map<Seq<char>, RemoteSdk>,
    r: Map<Seq<char>, RemoteSdk>,
) -> bool {
    &&& unique_keys(p.fetches@)
    &&& unique_keys(p.removes@)
    &&& forall|i: int|
        0 <= i < p.fetches@.len() ==> needs_fetch(l, r, key_of(#[trigger] p.fetches@[i]))
            && p.fetches@[i] == r[key_of(p.fetches@[i])]
    &&& forall|k: Seq<char>| #[trigger] needs_fetch(l, r, k) ==> seq_has_key(p.fetches@, k)
    &&& forall|i: int|
        0 <= i < p.removes@.len() ==> needs_remove(l, r, key_of(#[trigger] p.removes@[i]))
            && p.removes@[i] == l[key_of(p.removes@[i])]
    &&& forall|k: Seq<char>| #[trigger] needs_remove(l, r, k) ==> seq_has_key(p.removes@, k)
}

/// The single diff pass of one sync run.  Every remote record that is new
/// or changed relative to the local state is planned for a fetch; every
/// locally tracked record whose key the remote state no longer holds is
/// planned for a remove; nothing else is touched.
pub fn compute_plan(local: &SyncState, remote: &SyncState) -> (p: SyncPlan)
    requires
        local.wf(),
        remote.wf(),
    ensures
        plan_correct(p, local@, remote@),
{
    let mut fetches: Vec<RemoteSdk> = Vec::new();
    let n = remote.sdks.len();
    let mut i: usize = 0;
    while i < n
        invariant
            i <= n,
            n == remote.sdks@.len(),
            local.wf(),
            remote.wf(),
            unique_keys(fetches@),
            forall|m: int|
                0 <= m < fetches@.len() ==> needs_fetch(local@, remote@, key_of(
                    #[trigger] fetches@[m],
                )) && fetches@[m] == remote@[key_of(fetches@[m])],
            forall|m: int|
                0 <= m < fetches@.len() ==> exists|j: int|
                    0 <= j < i && key_of(remote.sdks@[j]) == key_of(#[trigger] fetches@[m]),
            forall|j: int|
                0 <= j < i && needs_fetch(local@, remote@, key_of(#[trigger] remote.sdks@[j]))
                    ==> seq_has_key(fetches@, key_of(remote.sdks@[j])),
        decreases n - i,
    {
        let sdk = &remote.sdks[i];
        proof {
            lemma_map_index(remote.sdks@, i as int);
        }
        let needed: bool = match local.get_sdk(sdk.local_filename()) {
            Some(cur) => !cur.same_record(sdk),
            None => true,
        };
        let ghost pre = fetches@;
        if needed {
            proof {
                if seq_has_key(fetches@, key_of(remote.sdks@[i as int])) {
                    let m = index_of_key(fetches@, key_of(remote.sdks@[i as int]));
                    assert(0 <= m < fetches@.len() && key_of(fetches@[m]) == key_of(
                        remote.sdks@[i as int],
                    ));
                    let j = choose|j: int|
                        0 <= j < i && key_of(remote.sdks@[j]) == key_of(fetches@[m]);
                    assert(key_of(remote.sdks@[j]) != key_of(remote.sdks@[i as int]));
                }
                lemma_push_fresh_key(fetches@, remote.sdks@[i as int]);
            }
            fetches.push(sdk.clone());
        }
        proof {
            assert forall|j: int|
                0 <= j <= i && needs_fetch(local@, remote@, key_of(#[trigger] remote.sdks@[j]))
                implies seq_has_key(fetches@, key_of(remote.sdks@[j])) by {
                let k = key_of(remote.sdks@[j]);
                if j < i {
                    assert(seq_has_key(pre, k));
                    let m = index_of_key(pre, k);
                    assert(0 <= m < pre.len() && key_of(pre[m]) == k);
                    assert(fetches@[m] == pre[m]);
                    assert(seq_has_key(fetches@, k));
                } else {
                    assert(needed);
                    assert(key_of(fetches@[pre.len() as int]) == k);
                    assert(seq_has_key(fetches@, k));
                }
            }
        }
        i = i + 1;
    }
    proof {
        assert forall|k: Seq<char>| #[trigger] needs_fetch(local@, remote@, k)
            implies seq_has_key(fetches@, k) by {
            let j = index_of_key(remote.sdks@, k);
            assert(0 <= j < remote.sdks@.len() && key_of(remote.sdks@[j]) == k);
        }
    }

    let mut removes: Vec<RemoteSdk> = Vec::new();
    let n2 = local.sdks.len();
    let mut i2: usize = 0;
    while i2 < n2
        invariant
            i2 <= n2,
            n2 == local.sdks@.len(),
            local.wf(),
            remote.wf(),
            unique_keys(removes@),
            forall|m: int|
                0 <= m < removes@.len() ==> needs_remove(local@, remote@, key_of(
                    #[trigger] removes@[m],
                )) && removes@[m] == local@[key_of(removes@[m])],
            forall|m: int|
                0 <= m < removes@.len() ==> exists|j: int|
                    0 <= j < i2 && key_of(local.sdks@[j]) == key_of(#[trigger] removes@[m]),
            forall|j: int|
                0 <= j < i2 && needs_remove(local@, remote@, key_of(#[trigger] local.sdks@[j]))
                    ==> seq_has_key(removes@, key_of(local.sdks@[j])),
        decreases n2 - i2,
    {
        let sdk = &local.sdks[i2];
        proof {
            lemma_map_index(local.sdks@, i2 as int);
        }
        let absent = remote.get_sdk(sdk.local_filename()).is_none();
        let ghost pre = removes@;
        if absent {
            proof {
                if seq_has_key(removes@, key_of(local.sdks@[i2 as int])) {
                    let m = index_of_key(removes@, key_of(local.sdks@[i2 as int]));
                    assert(0 <= m < removes@.len() && key_of(removes@[m]) == key_of(
                        local.sdks@[i2 as int],
                    ));
                    let j = choose|j: int|
                        0 <= j < i2 && key_of(local.sdks@[j]) == key_of(removes@[m]);
                    assert(key_of(local.sdks@[j]) != key_of(local.sdks@[i2 as int]));
                }
                lemma_push_fresh_key(removes@, local.sdks@[i2 as int]);
            }
            removes.push(sdk.clone());
        }
        proof {
            assert forall|j: int|
                0 <= j <= i2 && needs_remove(local@, remote@, key_of(#[trigger] local.sdks@[j]))
                implies seq_has_key(removes@, key_of(local.sdks@[j])) by {
                let k = key_of(local.sdks@[j]);
                if j < i2 {
                    assert(seq_has_key(pre, k));
                    let m = index_of_key(pre, k);
                    assert(0 <= m < pre.len() && key_of(pre[m]) == k);
                    assert(removes@[m] == pre[m]);
                    assert(seq_has_key(removes@, k));
                } else {
                    assert(absent);
                    assert(key_of(removes@[pre.len() as int]) == k);
                    assert(seq_has_key(removes@, k));
                }
            }
        }
        i2 = i2 + 1;
    }
    proof {
        assert forall|k: Seq<char>| #[trigger] needs_remove(local@, remote@, k)
            implies seq_has_key(removes@, k) by {
            let j = index_of_key(local.sdks@, k);
            assert(0 <= j < local.sdks@.len() && key_of(local.sdks@[j]) == k);
        }
    }

    SyncPlan { fetches, removes }
}

/// Idempotence: when the local state already equals the remote state, a
/// correct plan performs no fetch and no remove at all.
pub proof fn lemma_idempotence(p: SyncPlan, m: Map<Seq<char>, RemoteSdk>)
    requires
        plan_correct(p, m, m),
    ensures
        p.fetches@.len() == 0,
        p.removes@.len() == 0,
{
    if p.fetches@.len() > 0 {
        assert(needs_fetch(m, m, key_of(p.fetches@[0])));
    }
    if p.removes@.len() > 0 {
        assert(needs_remove(m, m, key_of(p.removes@[0])));
    }
}

/// The set of local names a list of planned operations touches.
pub open spec fn keys_of(s: Seq<RemoteSdk>) -> Set<Seq<char>> {
    Set::new(|k: Seq<char>| seq_has_key(s, k))
}

/// Convergence: starting from a mirror that holds exactly the local
/// state's keys, installing every planned fetch and deleting every
/// planned remove leaves exactly the remote state's keys on disk.
pub proof fn lemma_convergence(
    p: SyncPlan,
    l: Map<Seq<char>, RemoteSdk>,
    r: Map<Seq<char>, RemoteSdk>,
)
    requires
        plan_correct(p, l, r),
    ensures
        l.dom().union(keys_of(p.fetches@)).difference(keys_of(p.removes@)) == r.dom(),
{
    assert(keys_of(p.fetches@) =~= fetch_keys(l, r)) by {
        assert forall|k: Seq<char>| keys_of(p.fetches@).contains(k)
            implies fetch_keys(l, r).contains(k) by {
            let i = index_of_key(p.fetches@, k);
            assert(0 <= i < p.fetches@.len() && key_of(p.fetches@[i]) == k);
        }
    }
    assert(keys_of(p.removes@) =~= remove_keys(l, r)) by {
        assert forall|k: Seq<char>| keys_of(p.removes@).contains(k)
            implies remove_keys(l, r).contains(k) by {
            let i = index_of_key(p.removes@, k);
            assert(0 <= i < p.removes@.len() && key_of(p.removes@[i]) == k);
        }
    }
    assert(l.dom().union(fetch_keys(l, r)).difference(remove_keys(l, r)) =~= r.dom());
}

/// Minimality: an artifact whose record is unchanged between the local
/// and the remote state is neither fetched nor removed.
pub proof fn lemma_minimality(
    p: SyncPlan,
    l: Map<Seq<char>, RemoteSdk>,
    r: Map<Seq<char>, RemoteSdk>,
    k: Seq<char>,
)
    requires
        plan_correct(p, l, r),
        l.contains_key(k),
        r.contains_key(k),
        record_matches(l[k], r[k]),
    ensures
        !seq_has_key(p.fetches@, k),
        !seq_has_key(p.removes@, k),
{
    if seq_has_key(p.fetches@, k) {
        let i = index_of_key(p.fetches@, k);
        assert(0 <= i < p.fetches@.len() && key_of(p.fetches@[i]) == k);
        assert(needs_fetch(l, r, k));
    }
    if seq_has_key(p.removes@, k) {
        let i = index_of_key(p.removes@, k);
        assert(0 <= i < p.removes@.len() && key_of(p.removes@[i]) == k);
        assert(needs_remove(l, r, k));
    }
}

/// Change detection: an artifact tracked under the same key on both sides
/// whose record changed is fetched exactly once and never removed.
pub proof fn lemma_change_detection(
    p: SyncPlan,
    l: Map<Seq<char>, RemoteSdk>,
    r: Map<Seq<char>, RemoteSdk>,
    k: Seq<char>,
)
    requires
        plan_correct(p, l, r),
        l.contains_key(k),
        r.contains_key(k),
        !record_matches(l[k], r[k]),
    ensures
        seq_has_key(p.fetches@, k),
        forall|i: int, j: int|
            0 <= i < p.fetches@.len() && 0 <= j < p.fetches@.len() && key_of(
                #[trigger] p.fetches@[i],
            ) == k && key_of(#[trigger] p.fetches@[j]) == k ==> i == j,
        !seq_has_key(p.removes@, k),
{
    assert(needs_fetch(l, r, k));
    if seq_has_key(p.removes@, k) {
        let i = index_of_key(p.removes@, k);
        assert(0 <= i < p.removes@.len() && key_of(p.removes@[i]) == k);
        assert(needs_remove(l, r, k));
    }
}

/// Cleanup: an artifact tracked locally whose key the remote state no
/// longer holds is removed exactly once, is never fetched, and is absent
/// from the state persisted at the end of the run, which is the remote
/// state itself.
pub proof fn lemma_cleanup(
    p: SyncPlan,
    l: Map<Seq<char>, RemoteSdk>,
    r: Map<Seq<char>, RemoteSdk>,
    k: Seq<char>,
)
    requires
        plan_correct(p, l, r),
        l.contains_key(k),
        !r.contains_key(k),
    ensures
        seq_has_key(p.removes@, k),
        forall|i: int, j: int|
            0 <= i < p.removes@.len() && 0 <= j < p.removes@.len() && key_of(
                #[trigger] p.removes@[i],
            ) == k && key_of(#[trigger] p.removes@[j]) == k ==> i == j,
        !seq_has_key(p.fetches@, k),
        !r.dom().contains(k),
{
    assert(needs_remove(l, r, k));
    if seq_has_key(p.fetches@, k) {
        let i = index_of_key(p.fetches@, k);
        assert(0 <= i < p.fetches@.len() && key_of(p.fetches@[i]) == k);
        assert(needs_fetch(l, r, k));
    }
}

} // verus!
