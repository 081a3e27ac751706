//! The execution cache: content-addressed memoization of group results.
//!
//! A task group is fingerprinted by hashing its canonical wire encoding,
//! so two identical groups share one fingerprint and the response cached
//! for the first is returned for the second.

use vstd::prelude::*;
use crate::codec::{encode_task_group, encode_task_group_spec};
use crate::result::{StepResultV, TaskGroupResult, clone_task_group_result};
use crate::task::{StepV, TaskGroup};

verus! {

/// The digest that sha2's SHA-256 computes for the given bytes.
pub uninterp spec fn sha256_of(bytes: Seq<u8>) -> Seq<u8>;

/// Relies on sha2's `Sha256` through `Digest::digest`: a 32-byte digest
/// determined by the input bytes alone.
#[verifier::external_body]
fn sha256(bytes: &[u8]) -> (r: Vec<u8>)
    ensures
        r@ == sha256_of(bytes@),
        r@.len() == 32,
{
    <sha2::Sha256 as sha2::Digest>::digest(bytes).to_vec()
}

/// The fingerprint of a task group: the digest of the UTF-8 bytes of its
/// canonical wire encoding.
pub open spec fn fingerprint_spec(g: Seq<StepV>) -> Seq<u8> {
    sha256_of(vstd::utf8::encode_utf8(encode_task_group_spec(g)))
}

/// Compute a task group's fingerprint.
pub fn fingerprint(g: &TaskGroup) -> (r: Vec<u8>)
    ensures
        r@ == fingerprint_spec(g.deep_view()),
{
    let s = encode_task_group(g);
    sha256(s.as_str().as_bytes())
}

/// Byte-vector equality.
fn bytes_eq(a: &Vec<u8>, b: &Vec<u8>) -> (r: bool)
    ensures
        r == (a@ == b@),
{
    if a.len() != b.len() {
        return false;
    }
    let mut i: usize = 0;
    while i < a.len()
        invariant
            0 <= i <= a@.len(),
            a@.len() == b@.len(),
            forall|j: int| 0 <= j < i ==> a@[j] == b@[j],
        decreases a@.len() - i,
    {
        if a[i] != b[i] {
            return false;
        }
        i = i + 1;
    }
    proof {
        assert(a@ =~= b@);
    }
    true
}

/// The cached result for a key: the first entry that carries it.
pub open spec fn cache_lookup_from(
    entries: Seq<(Vec<u8>, TaskGroupResult)>,
    i: int,
    key: Seq<u8>,
) -> Option<Seq<StepResultV>>
    decreases entries.len() - i,
{
    if i < 0 || i >= entries.len() {
        None
    } else if entries[i].0@ == key {
        Some(entries[i].1.deep_view())
    } else {
        cache_lookup_from(entries, i + 1, key)
    }
}

/// The cached result for a key.
pub open spec fn cache_lookup(entries: Seq<(Vec<u8>, TaskGroupResult)>, key: Seq<u8>) -> Option<
    Seq<StepResultV>,
> {
    cache_lookup_from(entries, 0, key)
}

/// In-memory, unbounded, process-lifetime memoization of group results,
/// keyed by task-group fingerprints.
pub struct ExecutionCache {
    pub entries: Vec<(Vec<u8>, TaskGroupResult)>,
}

impl ExecutionCache {
    /// A fresh cache holds nothing.
    pub fn new() -> (c: Self)
        ensures
            c.entries@.len() == 0,
    {
        ExecutionCache { entries: Vec::new() }
    }

    /// The result cached for the group, if one is: exactly the lookup of
    /// the group's fingerprint.
    pub fn try_get(&self, task_group: &TaskGroup) -> (r: Option<TaskGroupResult>)
        ensures
            match cache_lookup(self.entries@, fingerprint_spec(task_group.deep_view())) {
                Some(rs) => r matches Some(g) && g.deep_view() == rs,
                None => r is None,
            },
    {
        let key = fingerprint(task_group);
        let mut i: usize = 0;
        while i < self.entries.len()
            invariant
                0 <= i <= self.entries@.len(),
                key@ == fingerprint_spec(task_group.deep_view()),
                cache_lookup(self.entries@, key@) == cache_lookup_from(
                    self.entries@,
                    i as int,
                    key@,
                ),
            decreases self.entries@.len() - i,
        {
            if bytes_eq(&self.entries[i].0, &key) {
                let r = clone_task_group_result(&self.entries[i].1);
                return Some(r);
            }
            i = i + 1;
        }
        None
    }

    /// Cache the result for the group under its fingerprint: afterwards
    /// the lookup of that fingerprint is exactly this result, and every
    /// other key reads as before. A second store for the same group wins.
    pub fn cache_result(&mut self, task_group: &TaskGroup, result: TaskGroupResult)
        ensures
            cache_lookup(final(self).entries@, fingerprint_spec(task_group.deep_view())) == Some(
                result.deep_view(),
            ),
            forall|k: Seq<u8>|
                k != fingerprint_spec(task_group.deep_view()) ==> #[trigger] cache_lookup(
                    final(self).entries@,
                    k,
                ) == cache_lookup(old(self).entries@, k),
    {
        let key = fingerprint(task_group);
        let ghost old_entries = self.entries@;
        let mut i: usize = 0;
        while i < self.entries.len()
            invariant
                0 <= i <= self.entries@.len(),
                self.entries@ == old_entries,
                old_entries == old(self).entries@,
                key@ == fingerprint_spec(task_group.deep_view()),
                forall|j: int| 0 <= j < i ==> (#[trigger] old_entries[j]).0@ != key@,
            decreases self.entries@.len() - i,
        {
            if bytes_eq(&self.entries[i].0, &key) {
                let ghost idx = i as int;
                self.entries[i] = (key, result);
                proof {
                    lemma_lookup_replace(old_entries, self.entries@, idx, key@);
                }
                return;
            }
            i = i + 1;
        }
        let ghost rv = result.deep_view();
        self.entries.push((key, result));
        proof {
            lemma_lookup_append(old_entries, self.entries@, key@, rv);
        }
    }
}

/// Replacing the first entry that carries a key updates that key's lookup
/// and no other.
proof fn lemma_lookup_replace(
    old_entries: Seq<(Vec<u8>, TaskGroupResult)>,
    new_entries: Seq<(Vec<u8>, TaskGroupResult)>,
    idx: int,
    key: Seq<u8>,
)
    requires
        0 <= idx < old_entries.len(),
        new_entries.len() == old_entries.len(),
        forall|j: int| 0 <= j < old_entries.len() && j != idx ==> #[trigger] new_entries[j]
            == old_entries[j],
        new_entries[idx].0@ == key,
        old_entries[idx].0@ == key,
        forall|j: int| 0 <= j < idx ==> (#[trigger] old_entries[j]).0@ != key,
    ensures
        cache_lookup(new_entries, key) == Some(new_entries[idx].1.deep_view()),
        forall|k: Seq<u8>|
            k != key ==> #[trigger] cache_lookup(new_entries, k) == cache_lookup(old_entries, k),
{
    lemma_lookup_replace_from(old_entries, new_entries, idx, key, 0);
    assert forall|k: Seq<u8>| k != key implies #[trigger] cache_lookup(new_entries, k)
        == cache_lookup(old_entries, k) by {
        lemma_lookup_replace_other(old_entries, new_entries, idx, key, k, 0);
    }
}

proof fn lemma_lookup_replace_from(
    old_entries: Seq<(Vec<u8>, TaskGroupResult)>,
    new_entries: Seq<(Vec<u8>, TaskGroupResult)>,
    idx: int,
    key: Seq<u8>,
    i: int,
)
    requires
        0 <= i <= idx < old_entries.len(),
        new_entries.len() == old_entries.len(),
        forall|j: int| 0 <= j < old_entries.len() && j != idx ==> #[trigger] new_entries[j]
            == old_entries[j],
        new_entries[idx].0@ == key,
        forall|j: int| 0 <= j < idx ==> (#[trigger] old_entries[j]).0@ != key,
    ensures
        cache_lookup_from(new_entries, i, key) == Some(new_entries[idx].1.deep_view()),
    decreases idx - i,
{
    if i < idx {
        assert(new_entries[i] == old_entries[i]);
        lemma_lookup_replace_from(old_entries, new_entries, idx, key, i + 1);
    }
}

proof fn lemma_lookup_replace_other(
    old_entries: Seq<(Vec<u8>, TaskGroupResult)>,
    new_entries: Seq<(Vec<u8>, TaskGroupResult)>,
    idx: int,
    key: Seq<u8>,
    k: Seq<u8>,
    i: int,
)
    requires
        0 <= i <= old_entries.len(),
        0 <= idx < old_entries.len(),
        new_entries.len() == old_entries.len(),
        forall|j: int| 0 <= j < old_entries.len() && j != idx ==> #[trigger] new_entries[j]
            == old_entries[j],
        new_entries[idx].0@ == key,
        old_entries[idx].0@ == key,
        k != key,
    ensures
        cache_lookup_from(new_entries, i, k) == cache_lookup_from(old_entries, i, k),
    decreases old_entries.len() - i,
{
    if i < old_entries.len() {
        lemma_lookup_replace_other(old_entries, new_entries, idx, key, k, i + 1);
    }
}

/// Appending an entry with a fresh key gives that key its lookup and
/// leaves every other key's lookup unchanged.
proof fn lemma_lookup_append(
    old_entries: Seq<(Vec<u8>, TaskGroupResult)>,
    new_entries: Seq<(Vec<u8>, TaskGroupResult)>,
    key: Seq<u8>,
    rv: Seq<StepResultV>,
)
    requires
        new_entries.len() == old_entries.len() + 1,
        forall|j: int| 0 <= j < old_entries.len() ==> #[trigger] new_entries[j] == old_entries[j],
        new_entries[old_entries.len() as int].0@ == key,
        new_entries[old_entries.len() as int].1.deep_view() == rv,
        forall|j: int| 0 <= j < old_entries.len() ==> (#[trigger] old_entries[j]).0@ != key,
    ensures
        cache_lookup(new_entries, key) == Some(rv),
        forall|k: Seq<u8>|
            k != key ==> #[trigger] cache_lookup(new_entries, k) == cache_lookup(old_entries, k),
{
    lemma_lookup_append_same(old_entries, new_entries, key, rv, 0);
    assert forall|k: Seq<u8>| k != key implies #[trigger] cache_lookup(new_entries, k)
        == cache_lookup(old_entries, k) by {
        lemma_lookup_append_other(old_entries, new_entries, key, k, 0);
    }
}

proof fn lemma_lookup_append_same(
    old_entries: Seq<(Vec<u8>, TaskGroupResult)>,
    new_entries: Seq<(Vec<u8>, TaskGroupResult)>,
    key: Seq<u8>,
    rv: Seq<StepResultV>,
    i: int,
)
    requires
        0 <= i <= old_entries.len(),
        new_entries.len() == old_entries.len() + 1,
        forall|j: int| 0 <= j < old_entries.len() ==> #[trigger] new_entries[j] == old_entries[j],
        new_entries[old_entries.len() as int].0@ == key,
        new_entries[old_entries.len() as int].1.deep_view() == rv,
        forall|j: int| 0 <= j < old_entries.len() ==> (#[trigger] old_entries[j]).0@ != key,
    ensures
        cache_lookup_from(new_entries, i, key) == Some(rv),
    decreases new_entries.len() - i,
{
    if i < old_entries.len() {
        lemma_lookup_append_same(old_entries, new_entries, key, rv, i + 1);
    }
}

proof fn lemma_lookup_append_other(
    old_entries: Seq<(Vec<u8>, TaskGroupResult)>,
    new_entries: Seq<(Vec<u8>, TaskGroupResult)>,
    key: Seq<u8>,
    k: Seq<u8>,
    i: int,
)
    requires
        0 <= i <= old_entries.len(),
        new_entries.len() == old_entries.len() + 1,
        forall|j: int| 0 <= j < old_entries.len() ==> #[trigger] new_entries[j] == old_entries[j],
        new_entries[old_entries.len() as int].0@ == key,
        k != key,
    ensures
        cache_lookup_from(new_entries, i, k) == cache_lookup_from(old_entries, i, k),
    decreases old_entries.len() - i + 1,
{
    if i < old_entries.len() {
        lemma_lookup_append_other(old_entries, new_entries, key, k, i + 1);
    } else {
        assert(cache_lookup_from(new_entries, i, k) == cache_lookup_from(new_entries, i + 1, k));
        assert(cache_lookup_from(new_entries, i + 1, k) is None);
        assert(cache_lookup_from(old_entries, i, k) is None);
    }
}

/// Cache-hit determinism: identical task groups share one fingerprint, so
/// whatever result the cache holds for the first is exactly what a lookup
/// for the second returns.
pub proof fn lemma_cache_hit_determinism(
    entries: Seq<(Vec<u8>, TaskGroupResult)>,
    g1: Seq<StepV>,
    g2: Seq<StepV>,
    r: Seq<StepResultV>,
)
    requires
        g1 == g2,
        cache_lookup(entries, fingerprint_spec(g1)) == Some(r),
    ensures
        cache_lookup(entries, fingerprint_spec(g2)) == Some(r),
{
}

} // verus!
