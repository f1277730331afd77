use vstd::prelude::*;

use crate::object::SharedObject;

verus! {

/// Returned by [`Registry::try_attach`] when the name is already present.
/// This is an expected, reportable outcome, not a hard error.
#[derive(Debug, Clone, Copy, PartialEq, Eq)]
pub struct AlreadyExists;

/// Returned by [`Registry::lookup`] when the name is not present.
#[derive(Debug, Clone, Copy, PartialEq, Eq)]
pub struct NotFound;

/// A non-owning reference to a registry entry, identified by the issue number
/// the entry was attached under. Once the entry is removed the reference
/// resolves to absent, and it can never pick up a later entry for the same
/// name: every attach hands out a fresh issue number.
#[derive(Debug, Clone, Copy)]
pub struct WeakRef {
    id: u64,
}

impl WeakRef {
    /// The issue number this reference tracks.
    pub closed spec fn id(self) -> u64 {
        self.id
    }
}

/// One named entry: the name, the issue number handed out when the entry was
/// attached, and the stored value.
struct Entry {
    name: String,
    id: u64,
    object: SharedObject,
}

/// Does some entry of the model `m` carry the issue number `id`?
pub open spec fn map_has_id(m: Map<Seq<char>, (u64, SharedObject)>, id: u64) -> bool {
    exists|n: Seq<char>| #[trigger] m.contains_key(n) && m[n].0 == id
}

/// No two names of the model `m` share an issue number.
pub open spec fn ids_unique(m: Map<Seq<char>, (u64, SharedObject)>) -> bool {
    forall|n1: Seq<char>, n2: Seq<char>|
        #[trigger] m.contains_key(n1) && #[trigger] m.contains_key(n2) && m[n1].0 == m[n2].0
            ==> n1 == n2
}

/// The name-to-value table. Its model (the view) is a map from each present
/// name to the pair of the entry's issue number and the stored value.
pub struct Registry {
    entries: Vec<Entry>,
    next_id: u64,
}

impl View for Registry {
    type V = Map<Seq<char>, (u64, SharedObject)>;

    closed spec fn view(&self) -> Map<Seq<char>, (u64, SharedObject)> {
        Map::new(
            |n: Seq<char>| self.contains_name(n),
            |n: Seq<char>|
                (self.entries@[self.index_of(n)].id, self.entries@[self.index_of(n)].object),
        )
    }
}

impl Registry {
    /// Is some entry named `n`?
    pub closed spec fn contains_name(self, n: Seq<char>) -> bool {
        exists|i: int|
            0 <= i < self.entries@.len() && #[trigger] self.entries@[i].name@ == n
    }

    /// The position of the entry named `n` (meaningful only when present).
    spec fn index_of(self, n: Seq<char>) -> int {
        choose|i: int| 0 <= i < self.entries@.len() && #[trigger] self.entries@[i].name@ == n
    }

    /// Names are pairwise distinct, issue numbers are pairwise distinct, and
    /// every issue number already handed out is below the next one.
    pub closed spec fn wf(self) -> bool {
        &&& forall|i: int, j: int|
            #![trigger self.entries@[i], self.entries@[j]]
            0 <= i < self.entries@.len() && 0 <= j < self.entries@.len() && i != j
                ==> self.entries@[i].name@ != self.entries@[j].name@
                    && self.entries@[i].id != self.entries@[j].id
        &&& forall|i: int|
            0 <= i < self.entries@.len() ==> #[trigger] self.entries@[i].id < self.next_id
    }

    /// How many issue numbers have been handed out so far.
    pub closed spec fn issued(self) -> u64 {
        self.next_id
    }

    /// Whether another issue number can still be handed out.
    pub open spec fn has_spare_ids(self) -> bool {
        self.issued() < u64::MAX
    }

    /// The position `index_of` picks is in range, carries the name, and is
    /// the only position carrying it.
    proof fn lemma_index_of(self, n: Seq<char>)
        requires
            self.wf(),
            self.contains_name(n),
        ensures
            0 <= self.index_of(n) < self.entries@.len(),
            self.entries@[self.index_of(n)].name@ == n,
            forall|j: int|
                0 <= j < self.entries@.len() && #[trigger] self.entries@[j].name@ == n
                    ==> j == self.index_of(n),
    {
        let i: int = self.index_of(n);
        assert(0 <= i < self.entries@.len() && self.entries@[i].name@ == n);
        assert forall|j: int|
            0 <= j < self.entries@.len() && #[trigger] self.entries@[j].name@ == n
                implies j == i by {
            if j != i {
                assert(self.entries@[j].name@ != self.entries@[i].name@);
            }
        }
    }

    /// From well-formedness: no two names of the model share an issue number,
    /// and every issue number in the model is below `issued()`.
    pub proof fn lemma_ids(self)
        requires
            self.wf(),
        ensures
            ids_unique(self@),
            forall|n: Seq<char>| #[trigger] self@.contains_key(n) ==> self@[n].0 < self.issued(),
    {
        assert forall|n1: Seq<char>, n2: Seq<char>|
            #[trigger] self@.contains_key(n1) && #[trigger] self@.contains_key(n2)
                && self@[n1].0 == self@[n2].0 implies n1 == n2 by {
            self.lemma_index_of(n1);
            self.lemma_index_of(n2);
            if self.index_of(n1) != self.index_of(n2) {
                assert(self.entries@[self.index_of(n1)].id
                    != self.entries@[self.index_of(n2)].id);
            }
        }
        assert forall|n: Seq<char>| #[trigger] self@.contains_key(n)
            implies self@[n].0 < self.issued() by {
            self.lemma_index_of(n);
        }
    }

    /// A fresh, empty registry.
    pub fn new() -> (r: Registry)
        ensures
            r.wf(),
            r@ == Map::<Seq<char>, (u64, SharedObject)>::empty(),
            r.issued() == 0,
            r.has_spare_ids(),
    {
        let r = Registry { entries: Vec::new(), next_id: 0 };
        proof {
            assert(r@ =~= Map::<Seq<char>, (u64, SharedObject)>::empty());
        }
        r
    }

    /// The position of the entry named `name`, if any.
    fn find_index(&self, name: &String) -> (r: Option<usize>)
        ensures
            match r {
                Some(i) => i < self.entries@.len() && self.entries@[i as int].name@ == name@,
                None => !self.contains_name(name@),
            },
    {
        let mut i: usize = 0;
        while i < self.entries.len()
            invariant
                i <= self.entries@.len(),
                forall|j: int| 0 <= j < i ==> #[trigger] self.entries@[j].name@ != name@,
            decreases self.entries@.len() - i,
        {
            if self.entries[i].name == *name {
                return Some(i);
            }
            i = i + 1;
        }
        None
    }

    /// Attach `object` under `name`: if the name is absent, store the value
    /// and hand back a fresh non-owning reference; if it is already present,
    /// reject without touching the table.
    pub fn try_attach(&mut self, name: String, object: SharedObject) -> (r: Result<
        WeakRef,
        AlreadyExists,
    >)
        requires
            old(self).wf(),
            old(self).has_spare_ids(),
        ensures
            final(self).wf(),
            r is Err <==> old(self)@.contains_key(name@),
            r is Err ==> final(self)@ == old(self)@ && final(self).issued() == old(self).issued(),
            (r matches Ok(w) ==> {
                &&& final(self)@ == old(self)@.insert(name@, (w.id(), object))
                &&& w.id() == old(self).issued()
                &&& !map_has_id(old(self)@, w.id())
                &&& final(self).issued() == old(self).issued() + 1
            }),
    {
        match self.find_index(&name) {
            Some(i) => {
                proof {
                    assert(self.entries@[i as int].name@ == name@);
                    assert(self.contains_name(name@));
                    assert(self@.contains_key(name@));
                }
                Err(AlreadyExists)
            },
            None => {
                let id: u64 = self.next_id;
                self.next_id = self.next_id + 1;
                let w = WeakRef { id };
                self.entries.push(Entry { name, id, object });
                proof {
                    self.lemma_attach_post(*old(self), id, name@, object);
                    assert(!map_has_id(old(self)@, id)) by {
                        if map_has_id(old(self)@, id) {
                            let n0 = choose|n0: Seq<char>|
                                #[trigger] old(self)@.contains_key(n0) && old(self)@[n0].0 == id;
                            old(self).lemma_index_of(n0);
                        }
                    }
                }
                Ok(w)
            },
        }
    }

    /// After pushing one fresh entry onto a well-formed registry whose names
    /// did not include the new one, the registry is well formed again and its
    /// model is the old model with the new name inserted.
    proof fn lemma_attach_post(self, pre: Registry, id: u64, n: Seq<char>, object: SharedObject)
        requires
            pre.wf(),
            !pre.contains_name(n),
            id == pre.next_id,
            pre.next_id < u64::MAX,
            self.next_id == pre.next_id + 1,
            self.entries@.len() == pre.entries@.len() + 1,
            forall|k: int|
                0 <= k < pre.entries@.len() ==> self.entries@[k] == pre.entries@[k],
            self.entries@[pre.entries@.len() as int].name@ == n,
            self.entries@[pre.entries@.len() as int].id == id,
            self.entries@[pre.entries@.len() as int].object == object,
        ensures
            self.wf(),
            self@ == pre@.insert(n, (id, object)),
    {
        let len: int = pre.entries@.len() as int;
        assert forall|k: int| 0 <= k < len implies #[trigger] pre.entries@[k].name@ != n by {
            assert(!pre.contains_name(n));
        }
        assert(self.wf()) by {
            assert forall|i: int, j: int|
                0 <= i < self.entries@.len() && 0 <= j < self.entries@.len() && i != j
                    implies #[trigger] self.entries@[i].name@ != #[trigger] self.entries@[j].name@
                        && self.entries@[i].id != self.entries@[j].id by {
                if i < len && j < len {
                    assert(self.entries@[i] == pre.entries@[i]);
                    assert(self.entries@[j] == pre.entries@[j]);
                } else if i == len {
                    assert(self.entries@[j] == pre.entries@[j]);
                    assert(pre.entries@[j].name@ != n);
                    assert(pre.entries@[j].id < pre.next_id);
                } else {
                    assert(self.entries@[i] == pre.entries@[i]);
                    assert(pre.entries@[i].name@ != n);
                    assert(pre.entries@[i].id < pre.next_id);
                }
            }
            assert forall|i: int| 0 <= i < self.entries@.len()
                implies #[trigger] self.entries@[i].id < self.next_id by {
                if i < len {
                    assert(self.entries@[i] == pre.entries@[i]);
                    assert(pre.entries@[i].id < pre.next_id);
                }
            }
        }
        let target = pre@.insert(n, (id, object));
        assert forall|k: Seq<char>| self@.contains_key(k)
            implies target.contains_key(k) && self@[k] == target[k] by {
            self.lemma_index_of(k);
            let i: int = self.index_of(k);
            if k == n {
                assert(self.entries@[len].name@ == k);
                assert(i == len);
                assert(self@[k] == (id, object));
            } else {
                assert(i != len);
                assert(self.entries@[i] == pre.entries@[i]);
                assert(pre.contains_name(k));
                pre.lemma_index_of(k);
                assert(pre.index_of(k) == i);
                assert(target[k] == pre@[k]);
            }
        }
        assert forall|k: Seq<char>| target.contains_key(k) implies self@.contains_key(k) by {
            if k == n {
                assert(self.entries@[len].name@ == k);
                assert(self.contains_name(k));
            } else {
                assert(pre@.contains_key(k));
                pre.lemma_index_of(k);
                let i: int = pre.index_of(k);
                assert(self.entries@[i] == pre.entries@[i]);
                assert(self.entries@[i].name@ == k);
                assert(self.contains_name(k));
            }
        }
        assert(self@ =~= target);
    }

    /// Remove the entry named `name`, if present. Removing an absent name
    /// changes nothing; the operation never fails.
    pub fn remove(&mut self, name: &String)
        requires
            old(self).wf(),
        ensures
            final(self).wf(),
            final(self)@ == old(self)@.remove(name@),
            final(self).issued() == old(self).issued(),
    {
        match self.find_index(name) {
            Some(i) => {
                proof {
                    assert(self.entries@[i as int].name@ == name@);
                    assert(self.contains_name(name@));
                    self.lemma_index_of(name@);
                }
                let _ = self.entries.remove(i);
                proof {
                    self.lemma_remove_post(*old(self), i as int, name@);
                }
            },
            None => {
                proof {
                    assert(!self@.contains_key(name@));
                    assert(self@.remove(name@) =~= self@);
                }
            },
        }
    }

    /// After taking out the one entry that carried `n`, the registry is well
    /// formed again and its model is the old model without `n`.
    proof fn lemma_remove_post(self, pre: Registry, i: int, n: Seq<char>)
        requires
            pre.wf(),
            0 <= i < pre.entries@.len(),
            pre.entries@[i].name@ == n,
            self.next_id == pre.next_id,
            self.entries@ == pre.entries@.remove(i),
        ensures
            self.wf(),
            self@ == pre@.remove(n),
    {
        let len: int = pre.entries@.len() as int;
        assert forall|k: int| 0 <= k < len - 1
            implies #[trigger] self.entries@[k] == pre.entries@[if k < i { k } else { k + 1 }] by {
            assert(self.entries@ == pre.entries@.remove(i));
        }
        assert(self.wf()) by {
            assert forall|a: int, b: int|
                0 <= a < self.entries@.len() && 0 <= b < self.entries@.len() && a != b
                    implies #[trigger] self.entries@[a].name@ != #[trigger] self.entries@[b].name@
                        && self.entries@[a].id != self.entries@[b].id by {
                let a0: int = if a < i { a } else { a + 1 };
                let b0: int = if b < i { b } else { b + 1 };
                assert(self.entries@[a] == pre.entries@[a0]);
                assert(self.entries@[b] == pre.entries@[b0]);
                assert(a0 != b0);
            }
            assert forall|a: int| 0 <= a < self.entries@.len()
                implies #[trigger] self.entries@[a].id < self.next_id by {
                let a0: int = if a < i { a } else { a + 1 };
                assert(self.entries@[a] == pre.entries@[a0]);
            }
        }
        pre.lemma_index_of(n);
        assert(pre.index_of(n) == i);
        let target = pre@.remove(n);
        assert forall|k: Seq<char>| self@.contains_key(k)
            implies target.contains_key(k) && self@[k] == target[k] by {
            self.lemma_index_of(k);
            let a: int = self.index_of(k);
            let a0: int = if a < i { a } else { a + 1 };
            assert(self.entries@[a] == pre.entries@[a0]);
            assert(pre.entries@[a0].name@ == k);
            assert(pre.contains_name(k));
            pre.lemma_index_of(k);
            assert(pre.index_of(k) == a0);
            assert(a0 != i);
            assert(k != n);
            assert(target.contains_key(k) && target[k] == pre@[k]);
        }
        assert forall|k: Seq<char>| target.contains_key(k) implies self@.contains_key(k) by {
            assert(k != n && pre@.contains_key(k));
            pre.lemma_index_of(k);
            let a0: int = pre.index_of(k);
            assert(a0 != i);
            let a: int = if a0 < i { a0 } else { a0 - 1 };
            assert(self.entries@[a] == pre.entries@[a0]);
            assert(self.entries@[a].name@ == k);
            assert(self.contains_name(k));
        }
        assert(self@ =~= target);
    }

    /// Look the name up and hand back a non-owning reference to its entry,
    /// or report that the name is not attached. The table is never changed.
    pub fn lookup(&self, name: &String) -> (r: Result<WeakRef, NotFound>)
        requires
            self.wf(),
        ensures
            r is Ok <==> self@.contains_key(name@),
            (r matches Ok(w) ==> w.id() == self@[name@].0 && map_has_id(self@, w.id())),
    {
        match self.find_index(name) {
            Some(i) => {
                proof {
                    assert(self.entries@[i as int].name@ == name@);
                    assert(self.contains_name(name@));
                    self.lemma_index_of(name@);
                    assert(self.index_of(name@) == i as int);
                    assert(self@.contains_key(name@));
                    assert(self@[name@].0 == self.entries@[i as int].id);
                }
                Ok(WeakRef { id: self.entries[i].id })
            },
            None => Err(NotFound),
        }
    }

    /// Resolve a non-owning reference: hand back the stored value whose entry
    /// still carries the reference's issue number, or report absence once no
    /// entry does.
    pub fn resolve(&self, r: &WeakRef) -> (res: Option<&SharedObject>)
        requires
            self.wf(),
        ensures
            res is Some <==> map_has_id(self@, r.id()),
            (res matches Some(o) ==> exists|n: Seq<char>|
                #[trigger] self@.contains_key(n) && self@[n].0 == r.id() && self@[n].1 == *o),
    {
        let mut i: usize = 0;
        while i < self.entries.len()
            invariant
                self.wf(),
                i <= self.entries@.len(),
                forall|j: int| 0 <= j < i ==> #[trigger] self.entries@[j].id != r.id(),
            decreases self.entries@.len() - i,
        {
            if self.entries[i].id == r.id {
                proof {
                    let n = self.entries@[i as int].name@;
                    assert(self.contains_name(n));
                    self.lemma_index_of(n);
                    assert(self.index_of(n) == i as int);
                    assert(self@.contains_key(n) && self@[n].0 == r.id()
                        && self@[n].1 == self.entries@[i as int].object);
                }
                return Some(&self.entries[i].object);
            }
            i = i + 1;
        }
        proof {
            assert(!map_has_id(self@, r.id())) by {
                if map_has_id(self@, r.id()) {
                    let n = choose|n: Seq<char>|
                        #[trigger] self@.contains_key(n) && self@[n].0 == r.id();
                    self.lemma_index_of(n);
                }
            }
        }
        None
    }

    /// Whether another attach can still be given a fresh issue number.
    pub fn has_id_capacity(&self) -> (b: bool)
        ensures
            b == self.has_spare_ids(),
    {
        self.next_id < u64::MAX
    }
}

} // verus!
