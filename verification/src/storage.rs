//! The storage adapter: the chain's flat persistent key-value map, holding
//! the VM's write-sets (code and resources) as opaque byte blobs. The adapter
//! never interprets key structure; it is a pure translation shim, viewed as a
//! mathematical map from byte sequences to byte sequences.

use vstd::prelude::*;

verus! {

/// Compares two byte vectors for equality of contents.
fn bytes_eq(a: &Vec<u8>, b: &Vec<u8>) -> (r: bool)
    ensures
        r == (a@ == b@),
{
    if a.len() != b.len() {
        return false;
    }
    let mut i: usize = 0;
    while i < a.len()
        invariant
            0 <= i <= a@.len(),
            a@.len() == b@.len(),
            forall|j: int| 0 <= j < i ==> a@[j] == b@[j],
        decreases a@.len() - i,
    {
        if a[i] != b[i] {
            return false;
        }
        i = i + 1;
    }
    proof {
        assert(a@ =~= b@);
    }
    true
}

/// The flat persistent key-value map, stored as a list of entries with
/// pairwise distinct keys.
pub struct VmStorage {
    entries: Vec<(Vec<u8>, Vec<u8>)>,
}

/// The map an entry list denotes.
closed spec fn to_map(s: Seq<(Vec<u8>, Vec<u8>)>) -> Map<Seq<u8>, Seq<u8>>
    decreases s.len(),
{
    if s.len() == 0 {
        Map::empty()
    } else {
        to_map(s.drop_last()).insert(s.last().0@, s.last().1@)
    }
}

spec fn distinct_keys(s: Seq<(Vec<u8>, Vec<u8>)>) -> bool {
    forall|i: int, j: int| 0 <= i < j < s.len() ==> (#[trigger] s[i]).0@ != (#[trigger] s[j]).0@
}

proof fn lemma_to_map_domain(s: Seq<(Vec<u8>, Vec<u8>)>, k: Seq<u8>)
    ensures
        to_map(s).contains_key(k) <==> exists|i: int| 0 <= i < s.len() && (#[trigger] s[i]).0@ == k,
    decreases s.len(),
{
    if s.len() > 0 {
        lemma_to_map_domain(s.drop_last(), k);
        let dl = s.drop_last();
        if s.last().0@ == k {
            assert((s[s.len() - 1]).0@ == k);
        } else if to_map(s).contains_key(k) {
            let i = choose|i: int| 0 <= i < dl.len() && (#[trigger] dl[i]).0@ == k;
            assert((s[i]).0@ == k);
        } else {
            assert(forall|i: int| 0 <= i < dl.len() ==> (#[trigger] dl[i]).0@ != k);
            assert(forall|i: int| 0 <= i < s.len() - 1 ==> (#[trigger] s[i]).0@ != k) by {
                assert(forall|i: int| 0 <= i < s.len() - 1 ==> s[i] == dl[i]);
            }
        }
    }
}

proof fn lemma_to_map_at(s: Seq<(Vec<u8>, Vec<u8>)>, i: int)
    requires
        distinct_keys(s),
        0 <= i < s.len(),
    ensures
        to_map(s).contains_key(s[i].0@),
        to_map(s)[s[i].0@] == s[i].1@,
    decreases s.len(),
{
    let dl = s.drop_last();
    if i == s.len() - 1 {
    } else {
        assert(distinct_keys(dl)) by {
            assert(forall|x: int| 0 <= x < dl.len() ==> dl[x] == s[x]);
        }
        assert(dl[i] == s[i]);
        lemma_to_map_at(dl, i);
        assert(s.last().0@ != s[i].0@);
    }
}

proof fn lemma_distinct_drop(s: Seq<(Vec<u8>, Vec<u8>)>)
    requires
        distinct_keys(s),
        s.len() > 0,
    ensures
        distinct_keys(s.drop_last()),
{
    let dl = s.drop_last();
    assert(forall|x: int| 0 <= x < dl.len() ==> dl[x] == s[x]);
}

/// Removing the entry at one index removes exactly that key from the map.
proof fn lemma_to_map_remove(s: Seq<(Vec<u8>, Vec<u8>)>, i: int)
    requires
        distinct_keys(s),
        0 <= i < s.len(),
    ensures
        distinct_keys(s.remove(i)),
        to_map(s.remove(i)) == to_map(s).remove(s[i].0@),
    decreases s.len(),
{
    let r = s.remove(i);
    let dl = s.drop_last();
    assert(forall|x: int| 0 <= x < r.len() ==> r[x] == (if x < i { s[x] } else { s[x + 1] }));
    assert(distinct_keys(r));
    lemma_distinct_drop(s);
    if i == s.len() - 1 {
        assert(r =~= dl);
        lemma_to_map_domain(dl, s[i].0@);
        assert(forall|x: int| 0 <= x < dl.len() ==> (#[trigger] dl[x]).0@ != s[i].0@);
        assert(to_map(s).remove(s[i].0@) =~= to_map(dl));
    } else {
        assert(r.drop_last() =~= dl.remove(i));
        assert(dl[i] == s[i]);
        lemma_to_map_remove(dl, i);
        assert(r.last() == s.last());
        assert(s.last().0@ != s[i].0@);
        assert(to_map(dl).remove(s[i].0@).insert(s.last().0@, s.last().1@) =~= to_map(dl).insert(
            s.last().0@,
            s.last().1@,
        ).remove(s[i].0@));
    }
}

/// The map a write-set leaves behind, applied change by change in order.
pub open spec fn apply_changes(
    m: Map<Seq<u8>, Seq<u8>>,
    cs: Seq<(Vec<u8>, Option<Vec<u8>>)>,
) -> Map<Seq<u8>, Seq<u8>>
    decreases cs.len(),
{
    if cs.len() == 0 {
        m
    } else {
        let stepped = match cs[0].1 {
            Some(v) => m.insert(cs[0].0@, v@),
            None => m.remove(cs[0].0@),
        };
        apply_changes(stepped, cs.drop_first())
    }
}

/// Law: publishing a module stores its byte blob under its content-addressed
/// key, so publishing the same module twice leaves exactly the stored bytes
/// that one publication leaves.
pub proof fn lemma_republish_same_bytes(m: Map<Seq<u8>, Seq<u8>>, key: Seq<u8>, value: Seq<u8>)
    ensures
        m.insert(key, value).insert(key, value) == m.insert(key, value),
{
    assert(m.insert(key, value).insert(key, value) =~= m.insert(key, value));
}

impl View for VmStorage {
    type V = Map<Seq<u8>, Seq<u8>>;

    closed spec fn view(&self) -> Map<Seq<u8>, Seq<u8>> {
        to_map(self.entries@)
    }
}

impl VmStorage {
    /// Pairwise distinct keys, so each key denotes at most one stored value.
    pub closed spec fn wf(&self) -> bool {
        distinct_keys(self.entries@)
    }

    /// An empty store.
    pub fn new() -> (r: VmStorage)
        ensures
            r.wf(),
            r@ == Map::<Seq<u8>, Seq<u8>>::empty(),
    {
        VmStorage { entries: Vec::new() }
    }

    fn find(&self, key: &Vec<u8>) -> (r: Option<usize>)
        requires
            self.wf(),
        ensures
            match r {
                Some(i) => i < self.entries@.len() && self.entries@[i as int].0@ == key@
                    && self@.contains_key(key@) && self@[key@] == self.entries@[i as int].1@,
                None => !self@.contains_key(key@),
            },
    {
        let mut i: usize = 0;
        while i < self.entries.len()
            invariant
                self.wf(),
                0 <= i <= self.entries@.len(),
                forall|j: int| 0 <= j < i ==> (#[trigger] self.entries@[j]).0@ != key@,
            decreases self.entries@.len() - i,
        {
            if bytes_eq(&self.entries[i].0, key) {
                proof {
                    lemma_to_map_at(self.entries@, i as int);
                }
                return Some(i);
            }
            i = i + 1;
        }
        proof {
            lemma_to_map_domain(self.entries@, key@);
        }
        None
    }

    /// Looks a key up, returning the stored value when one is present.
    pub fn get(&self, key: &Vec<u8>) -> (r: Option<&Vec<u8>>)
        requires
            self.wf(),
        ensures
            match r {
                Some(v) => self@.contains_key(key@) && v@ == self@[key@],
                None => !self@.contains_key(key@),
            },
    {
        match self.find(key) {
            Some(i) => Some(&self.entries[i].1),
            None => None,
        }
    }

    /// Removes a key and its value; a key that is absent stays absent.
    pub fn remove(&mut self, key: &Vec<u8>)
        requires
            old(self).wf(),
        ensures
            final(self).wf(),
            final(self)@ == old(self)@.remove(key@),
    {
        match self.find(key) {
            Some(i) => {
                proof {
                    lemma_to_map_remove(self.entries@, i as int);
                }
                self.entries.remove(i);
            },
            None => {
                proof {
                    assert(self@.remove(key@) =~= self@);
                }
            },
        }
    }

    /// Applies a VM write-set in order: a change carrying a value stores it,
    /// a change carrying none deletes the key.
    pub fn apply_write_set(&mut self, changes: Vec<(Vec<u8>, Option<Vec<u8>>)>)
        requires
            old(self).wf(),
        ensures
            final(self).wf(),
            final(self)@ == apply_changes(old(self)@, changes@),
    {
        let ghost target = apply_changes(old(self)@, changes@);
        let mut changes = changes;
        while changes.len() > 0
            invariant
                self.wf(),
                apply_changes(self@, changes@) == target,
            decreases changes@.len(),
        {
            proof {
                assert(changes@.remove(0) =~= changes@.drop_first());
            }
            let (key, change) = changes.remove(0);
            match change {
                Some(value) => self.set(key, value),
                None => self.remove(&key),
            }
        }
    }

    /// Stores a value under a key, overwriting any previous value.
    pub fn set(&mut self, key: Vec<u8>, value: Vec<u8>)
        requires
            old(self).wf(),
        ensures
            final(self).wf(),
            final(self)@ == old(self)@.insert(key@, value@),
    {
        self.remove(&key);
        proof {
            lemma_to_map_domain(self.entries@, key@);
            assert(self.entries@.push((key, value)).drop_last() =~= self.entries@);
            assert(forall|x: int| 0 <= x < self.entries@.len() ==> #[trigger] self.entries@.push(
                (key, value),
            )[x] == self.entries@[x]);
            assert(old(self)@.remove(key@).insert(key@, value@) =~= old(self)@.insert(
                key@,
                value@,
            ));
        }
        self.entries.push((key, value));
    }
}

} // verus!
