//! A small verified map from remote device ids to local virtual device ids,
//! kept as an association list with unique keys and viewed as a `Map`.

use vstd::prelude::*;

use crate::device::DeviceId;
use crate::device::VirtualDeviceId;

verus! {

/// The map denoted by an association list; later entries win.
pub open spec fn assoc_map(s: Seq<(DeviceId, VirtualDeviceId)>) -> Map<DeviceId, VirtualDeviceId>
    decreases s.len(),
{
    if s.len() == 0 {
        Map::empty()
    } else {
        assoc_map(s.drop_last()).insert(s.last().0, s.last().1)
    }
}

/// No key occurs twice.
pub open spec fn unique_keys(s: Seq<(DeviceId, VirtualDeviceId)>) -> bool {
    forall|i: int, j: int| 0 <= i < j < s.len() ==> (#[trigger] s[i]).0 != (#[trigger] s[j]).0
}

/// A key is in the map exactly when some entry carries it, and, with unique
/// keys, each entry gives its key's value.
proof fn lemma_assoc_map_entries(s: Seq<(DeviceId, VirtualDeviceId)>)
    ensures
        forall|k: DeviceId| #[trigger]
            assoc_map(s).contains_key(k) <==> exists|i: int| 0 <= i < s.len() && (#[trigger] s[i]).0
                == k,
        unique_keys(s) ==> forall|i: int|
            0 <= i < s.len() ==> assoc_map(s).contains_key((#[trigger] s[i]).0) && assoc_map(s)[
                s[i].0
            ] == s[i].1,
    decreases s.len(),
{
    if s.len() > 0 {
        lemma_assoc_map_entries(s.drop_last());
        assert forall|k: DeviceId| #[trigger]
            assoc_map(s).contains_key(k) implies exists|i: int|
            0 <= i < s.len() && (#[trigger] s[i]).0 == k by {
            if k == s.last().0 {
                assert((#[trigger] s[s.len() - 1]).0 == k);
            } else {
                assert(assoc_map(s.drop_last()).contains_key(k));
                let i = choose|i: int|
                    0 <= i < s.drop_last().len() && (#[trigger] s.drop_last()[i]).0 == k;
                assert(s.drop_last()[i] == s[i]);
                assert((#[trigger] s[i]).0 == k);
            }
        }
        assert forall|k: DeviceId|
            (exists|i: int| 0 <= i < s.len() && (#[trigger] s[i]).0 == k) implies #[trigger]
            assoc_map(s).contains_key(k) by {
            let i = choose|i: int| 0 <= i < s.len() && (#[trigger] s[i]).0 == k;
            if i < s.len() - 1 {
                assert(s.drop_last()[i] == s[i]);
                assert(assoc_map(s.drop_last()).contains_key(k));
            }
        }
        assert forall|i: int| 0 <= i < s.len() && unique_keys(s) implies assoc_map(
            s,
        ).contains_key((#[trigger] s[i]).0) && assoc_map(s)[s[i].0] == s[i].1 by {
            if i < s.len() - 1 {
                assert(s.drop_last()[i] == s[i]);
                assert(s[i].0 != s.last().0);
            }
        }
    }
}

/// Removing the entry at index `i` removes exactly that key from the map,
/// provided keys are unique.
proof fn lemma_assoc_map_remove(s: Seq<(DeviceId, VirtualDeviceId)>, i: int)
    requires
        unique_keys(s),
        0 <= i < s.len(),
    ensures
        assoc_map(s.remove(i)) == assoc_map(s).remove(s[i].0),
        unique_keys(s.remove(i)),
{
    s.remove_ensures(i);
    lemma_assoc_map_entries(s);
    assert forall|x: int, y: int|
        0 <= x < y < s.remove(i).len() implies (#[trigger] s.remove(i)[x]).0 != (#[trigger] s.remove(
            i,
        )[y]).0 by {
        let x2 = if x < i {
            x
        } else {
            x + 1
        };
        let y2 = if y < i {
            y
        } else {
            y + 1
        };
        assert(s.remove(i)[x] == s[x2] && s.remove(i)[y] == s[y2]);
    }
    lemma_assoc_map_entries(s.remove(i));
    let a = assoc_map(s.remove(i));
    let b = assoc_map(s).remove(s[i].0);
    assert forall|k: DeviceId| a.contains_key(k) <==> b.contains_key(k) by {
        if a.contains_key(k) {
            let x = choose|x: int| 0 <= x < s.remove(i).len() && (#[trigger] s.remove(i)[x]).0 == k;
            let y = if x < i {
                x
            } else {
                x + 1
            };
            assert((#[trigger] s[y]).0 == k);
            assert(k != s[i].0);
        }
        if b.contains_key(k) {
            let y = choose|y: int| 0 <= y < s.len() && (#[trigger] s[y]).0 == k;
            let x = if y < i {
                y
            } else {
                y - 1
            };
            assert((#[trigger] s.remove(i)[x]).0 == k);
        }
    }
    assert forall|k: DeviceId| a.contains_key(k) implies a[k] == b[k] by {
        let x = choose|x: int| 0 <= x < s.remove(i).len() && (#[trigger] s.remove(i)[x]).0 == k;
        let y = if x < i {
            x
        } else {
            x + 1
        };
        assert(s.remove(i)[x] == s[y]);
        assert(a[k] == s.remove(i)[x].1);
        assert(b[k] == s[y].1);
    }
    assert(a =~= b);
}

/// Map from a peer's device ids to the local virtual devices mirroring them.
#[derive(Debug, Clone, PartialEq, Eq)]
pub struct DeviceMap {
    entries: Vec<(DeviceId, VirtualDeviceId)>,
}

impl View for DeviceMap {
    type V = Map<DeviceId, VirtualDeviceId>;

    closed spec fn view(&self) -> Map<DeviceId, VirtualDeviceId> {
        assoc_map(self.entries@)
    }
}

impl DeviceMap {
    /// Internal well-formedness: keys are unique.
    pub closed spec fn wf(self) -> bool {
        unique_keys(self.entries@)
    }

    /// An empty map.
    pub fn new() -> (r: Self)
        ensures
            r@ == Map::<DeviceId, VirtualDeviceId>::empty(),
            r.wf(),
    {
        let r = DeviceMap { entries: Vec::new() };
        proof {
            assert(r@ =~= Map::<DeviceId, VirtualDeviceId>::empty());
        }
        r
    }

    /// The index of the entry holding `key`, if any.
    fn find(&self, key: DeviceId) -> (r: Option<usize>)
        ensures
            r matches Some(i) ==> i < self.entries@.len() && self.entries@[i as int].0 == key,
            r is None ==> forall|i: int|
                0 <= i < self.entries@.len() ==> (#[trigger] self.entries@[i]).0 != key,
    {
        let mut i: usize = 0;
        while i < self.entries.len()
            invariant
                i <= self.entries@.len(),
                forall|j: int| 0 <= j < i ==> (#[trigger] self.entries@[j]).0 != key,
            decreases self.entries@.len() - i,
        {
            if self.entries[i].0 == key {
                return Some(i);
            }
            i = i + 1;
        }
        None
    }

    /// Look up the virtual device for a remote device id.
    pub fn get(&self, key: DeviceId) -> (r: Option<VirtualDeviceId>)
        requires
            self.wf(),
        ensures
            r matches Some(v) ==> self@.contains_key(key) && self@[key] == v,
            r is None ==> !self@.contains_key(key),
    {
        proof {
            lemma_assoc_map_entries(self.entries@);
        }
        match self.find(key) {
            Some(i) => Some(self.entries[i].1),
            None => None,
        }
    }

    /// Insert or replace the mapping for `key`.
    pub fn insert(&mut self, key: DeviceId, value: VirtualDeviceId)
        requires
            old(self).wf(),
        ensures
            final(self)@ == old(self)@.insert(key, value),
            final(self).wf(),
    {
        let _ = self.remove(key);
        let ghost mid = self.entries@;
        proof {
            lemma_assoc_map_entries(mid);
        }
        self.entries.push((key, value));
        proof {
            assert(self.entries@.drop_last() =~= mid);
            assert(self@ == assoc_map(mid).insert(key, value));
            assert(assoc_map(mid).insert(key, value) =~= old(self)@.insert(key, value));
            assert forall|i: int, j: int|
                0 <= i < j < self.entries@.len() implies (#[trigger] self.entries@[i]).0
                != (#[trigger] self.entries@[j]).0 by {
                if j == self.entries@.len() - 1 {
                    assert(!assoc_map(mid).contains_key(key));
                    assert(self.entries@[i] == mid[i]);
                }
            }
        }
    }

    /// Remove the mapping for `key`, returning the virtual device it held.
    pub fn remove(&mut self, key: DeviceId) -> (r: Option<VirtualDeviceId>)
        requires
            old(self).wf(),
        ensures
            final(self)@ == old(self)@.remove(key),
            final(self).wf(),
            r matches Some(v) ==> old(self)@.contains_key(key) && old(self)@[key] == v,
            r is None ==> !old(self)@.contains_key(key),
    {
        proof {
            lemma_assoc_map_entries(self.entries@);
        }
        match self.find(key) {
            Some(i) => {
                proof {
                    lemma_assoc_map_remove(self.entries@, i as int);
                }
                let (_, v) = self.entries.remove(i);
                Some(v)
            },
            None => {
                proof {
                    assert(self@ =~= self@.remove(key));
                }
                None
            },
        }
    }

    /// All virtual device ids currently mapped, in entry order.
    pub fn values(&self) -> (r: Vec<VirtualDeviceId>)
        requires
            self.wf(),
        ensures
            forall|k: DeviceId| #[trigger]
                self@.contains_key(k) ==> exists|i: int| 0 <= i < r@.len() && r@[i] == self@[k],
            forall|i: int| 0 <= i < r@.len() ==> self@.contains_value(#[trigger] r@[i]),
    {
        proof {
            lemma_assoc_map_entries(self.entries@);
        }
        let mut r: Vec<VirtualDeviceId> = Vec::new();
        let mut i: usize = 0;
        while i < self.entries.len()
            invariant
                i <= self.entries@.len(),
                r@ == self.entries@.take(i as int).map_values(
                    |e: (DeviceId, VirtualDeviceId)| e.1,
                ),
            decreases self.entries@.len() - i,
        {
            r.push(self.entries[i].1);
            proof {
                assert(r@ =~= self.entries@.take(i + 1).map_values(
                    |e: (DeviceId, VirtualDeviceId)| e.1,
                ));
            }
            i = i + 1;
        }
        proof {
            assert(self.entries@.take(self.entries@.len() as int) =~= self.entries@);
            assert forall|k: DeviceId| #[trigger] self@.contains_key(k) implies exists|i: int|
                0 <= i < r@.len() && r@[i] == self@[k] by {
            let j = choose|j: int| 0 <= j < self.entries@.len() && (#[trigger] self.entries@[j]).0
                == k;
                assert(r@[j] == self@[k]);
            }
            assert forall|i: int| 0 <= i < r@.len() implies self@.contains_value(
                #[trigger] r@[i],
            ) by {
                assert(self@.contains_key(self.entries@[i].0) && self@[self.entries@[i].0]
                    == self.entries@[i].1);
            }
        }
        r
    }

}

} // verus!
