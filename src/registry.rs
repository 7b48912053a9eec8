//! The registry of publishers: one handle per database name, looked up by
//! subscribers, dropped when the database is closed for everyone, and swept
//! of the handles nobody listens to.
use vstd::prelude::*;

verus! {

/// What a new subscriber does with the registry entry of its database.
#[derive(Debug, Clone, Copy, PartialEq, Eq)]
pub enum SubscribePlan {
    /// Subscribe to the registered publisher, which still runs.
    Reuse,
    /// Start a publisher in place of the registered one, which has ended.
    Restart,
    /// Start the first publisher of the database.
    Start,
}

/// Only a live publisher is reused: one that is registered and still runs.
pub fn plan_subscription(registered: bool, publisher_running: bool) -> (r: SubscribePlan)
    ensures
        registered && publisher_running ==> r == SubscribePlan::Reuse,
        registered && !publisher_running ==> r == SubscribePlan::Restart,
        !registered ==> r == SubscribePlan::Start,
{
    if !registered {
        SubscribePlan::Start
    } else if publisher_running {
        SubscribePlan::Reuse
    } else {
        SubscribePlan::Restart
    }
}

/// Handles keyed by database name; a name occurs once.
pub struct Registry<H> {
    entries: Vec<(String, H)>,
}

/// Whether an entry named `t` sits at a position of `entries` that `drop`
/// does not mark.
pub open spec fn kept<H>(entries: Seq<(String, H)>, drop: Seq<bool>, t: Seq<char>) -> bool {
    exists|i: int| 0 <= i < entries.len() && !drop[i] && (#[trigger] entries[i]).0@ == t
}

impl<H> View for Registry<H> {
    type V = Map<Seq<char>, H>;

    closed spec fn view(&self) -> Map<Seq<char>, H> {
        Map::new(
            |t: Seq<char>| exists|i: int| 0 <= i < self.entries@.len() && self.entries@[i].0@ == t,
            |t: Seq<char>|
                self.entries@[choose|i: int|
                    0 <= i < self.entries@.len() && self.entries@[i].0@ == t].1,
        )
    }
}

/// Whether the names of `entries` differ.
pub open spec fn distinct_names<H>(entries: Seq<(String, H)>) -> bool {
    forall|i: int, j: int| 0 <= i < j < entries.len() ==> entries[i].0@ != entries[j].0@
}

impl<H> Registry<H> {
    #[verifier::type_invariant]
    closed spec fn inv(&self) -> bool {
        distinct_names(self.entries@)
    }

    /// The names of the handles, in the order that the sweep reads them.
    pub closed spec fn names(&self) -> Seq<Seq<char>> {
        self.entries@.map_values(|e: (String, H)| e.0@)
    }

    /// Every key of the registry stands at exactly one position of
    /// `names()`.
    pub open spec fn names_match(&self) -> bool {
        &&& self.names().no_duplicates()
        &&& self@.dom() == self.names().to_set()
    }

    proof fn lemma_names(&self)
        requires
            distinct_names(self.entries@),
        ensures
            self.names_match(),
    {
        let names = self.names();
        assert forall|i: int, j: int| 0 <= i < names.len() && 0 <= j < names.len() && i != j
            implies names[i] != names[j] by {
            if i < j {
                assert(self.entries@[i].0@ != self.entries@[j].0@);
            } else {
                assert(self.entries@[j].0@ != self.entries@[i].0@);
            }
        }
        assert forall|t: Seq<char>| #[trigger] self@.dom().contains(t) == names.to_set().contains(t) by {
            if self@.dom().contains(t) {
                let i = choose|i: int| 0 <= i < self.entries@.len() && self.entries@[i].0@ == t;
                assert(names[i] == t);
            }
            if names.to_set().contains(t) {
                let i = choose|i: int| 0 <= i < names.len() && names[i] == t;
                assert(self.entries@[i].0@ == t);
            }
        }
        assert(self@.dom() =~= names.to_set());
    }

    proof fn lemma_entry(&self, i: int)
        requires
            distinct_names(self.entries@),
            0 <= i < self.entries@.len(),
        ensures
            self@.contains_key(self.entries@[i].0@),
            self@[self.entries@[i].0@] == self.entries@[i].1,
    {
        let t = self.entries@[i].0@;
        assert(self@.dom().contains(t));
        let j = choose|j: int| 0 <= j < self.entries@.len() && self.entries@[j].0@ == t;
        assert(j == i);
    }

    pub fn new() -> (r: Registry<H>)
        ensures
            r@ == Map::<Seq<char>, H>::empty(),
            r.names_match(),
    {
        let r = Registry { entries: Vec::new() };
        assert(r@ =~= Map::<Seq<char>, H>::empty());
        proof {
            r.lemma_names();
        }
        r
    }

    pub fn len(&self) -> (r: usize)
        ensures
            r == self.names().len(),
            self.names_match(),
    {
        proof {
            use_type_invariant(self);
            self.lemma_names();
        }
        self.entries.len()
    }

    /// The handle read at position `i` by the sweep.
    pub fn handle_at(&self, i: usize) -> (r: &H)
        requires
            i < self.names().len(),
        ensures
            self@.contains_key(self.names()[i as int]),
            *r == self@[self.names()[i as int]],
    {
        proof {
            use_type_invariant(self);
            self.lemma_entry(i as int);
        }
        &self.entries[i].1
    }

    fn position(&self, name: &String) -> (r: Option<usize>)
        ensures
            r is None ==> !self@.contains_key(name@),
            r matches Some(i) ==> i < self.entries@.len() && self.entries@[i as int].0@ == name@
                && self@.contains_key(name@) && self@[name@] == self.entries@[i as int].1,
    {
        proof {
            use_type_invariant(self);
        }
        let mut i: usize = 0;
        while i < self.entries.len()
            invariant
                distinct_names(self.entries@),
                i <= self.entries@.len(),
                forall|j: int| 0 <= j < i ==> self.entries@[j].0@ != name@,
            decreases self.entries@.len() - i,
        {
            if self.entries[i].0 == *name {
                proof {
                    self.lemma_entry(i as int);
                }
                return Some(i);
            }
            i = i + 1;
        }
        None
    }

    /// The handle of the database `name`, if there is one.
    pub fn get(&self, name: &str) -> (r: Option<&H>)
        ensures
            r is Some <==> self@.contains_key(name@),
            r matches Some(h) ==> *h == self@[name@],
    {
        let name = name.to_owned();
        match self.position(&name) {
            Some(i) => Some(&self.entries[i].1),
            None => None,
        }
    }

    /// Splits `entries` into the entries that `drop` does not mark and
    /// those it marks.
    fn partition(source: Vec<(String, H)>, drop: &Vec<bool>) -> (r: (
        Vec<(String, H)>,
        Vec<(String, H)>,
        Ghost<Seq<int>>,
        Ghost<Seq<int>>,
    ))
        requires
            drop@.len() == source@.len(),
            distinct_names(source@),
        ensures
            distinct_names(r.0@),
            forall|t: Seq<char>|
                #![trigger kept(source@, drop@, t)]
                kept(source@, drop@, t) <==> exists|k: int|
                    0 <= k < r.0@.len() && (#[trigger] r.0@[k]).0@ == t,
            r.2@.len() == r.0@.len(),
            forall|k: int|
                0 <= k < r.0@.len() ==> 0 <= #[trigger] r.2@[k] < source@.len() && !drop@[r.2@[k]]
                    && r.0@[k] == source@[r.2@[k]],
            r.3@.len() == r.1@.len(),
            forall|k: int|
                0 <= k < r.1@.len() ==> 0 <= #[trigger] r.3@[k] < source@.len() && drop@[r.3@[k]]
                    && r.1@[k] == source@[r.3@[k]],
            (exists|j: int| 0 <= j < source@.len() && drop@[j]) ==> r.1@.len() > 0,
    {
        let ghost all = source@;
        let n = source.len();
        let mut entries = source;
        let mut keep: Vec<(String, H)> = Vec::new();
        let mut gone: Vec<(String, H)> = Vec::new();
        let ghost mut idx: Seq<int> = Seq::empty();
        let ghost mut gone_idx: Seq<int> = Seq::empty();
        let mut i: usize = n;
        while i > 0
            invariant
                n == all.len(),
                drop@.len() == n,
                distinct_names(all),
                i <= n,
                entries@ == all.take(i as int),
                idx.len() == keep@.len(),
                gone_idx.len() == gone@.len(),
                forall|k: int|
                    0 <= k < idx.len() ==> i <= #[trigger] idx[k] < n && !drop@[idx[k]] && keep@[k]
                        == all[idx[k]],
                forall|a: int, b: int| 0 <= a < b < idx.len() ==> idx[a] > idx[b],
                forall|j: int|
                    i <= j < n && !drop@[j] ==> exists|k: int|
                        0 <= k < idx.len() && #[trigger] idx[k] == j,
                forall|k: int|
                    0 <= k < gone_idx.len() ==> i <= #[trigger] gone_idx[k] < n && drop@[gone_idx[k]]
                        && gone@[k] == all[gone_idx[k]],
                forall|j: int|
                    i <= j < n && drop@[j] ==> exists|k: int|
                        0 <= k < gone_idx.len() && #[trigger] gone_idx[k] == j,
            decreases i,
        {
            let ghost before = entries@;
            match entries.pop() {
                Some(entry) => {
                    proof {
                        assert(entry == all[i - 1]);
                        assert(entries@ =~= all.take(i - 1));
                    }
                    if drop[i - 1] {
                        gone.push(entry);
                        proof {
                            let old_gone = gone_idx;
                            gone_idx = gone_idx.push(i - 1);
                            assert forall|j: int|
                                i - 1 <= j < n && drop@[j] implies exists|k: int|
                                0 <= k < gone_idx.len() && #[trigger] gone_idx[k] == j by {
                                if j == i - 1 {
                                    assert(gone_idx[gone_idx.len() - 1] == j);
                                } else {
                                    let k = choose|k: int|
                                        0 <= k < old_gone.len() && #[trigger] old_gone[k] == j;
                                    assert(gone_idx[k] == j);
                                }
                            }
                        }
                    } else {
                        keep.push(entry);
                        proof {
                            let old_idx = idx;
                            idx = idx.push(i - 1);
                            assert forall|j: int|
                                i - 1 <= j < n && !drop@[j] implies exists|k: int|
                                0 <= k < idx.len() && #[trigger] idx[k] == j by {
                                if j == i - 1 {
                                    assert(idx[idx.len() - 1] == j);
                                } else {
                                    let k = choose|k: int| 0 <= k < old_idx.len() && #[trigger] old_idx[k] == j;
                                    assert(idx[k] == j);
                                }
                            }
                        }
                    }
                },
                None => {},
            }
            i = i - 1;
        }
        proof {
            assert forall|a: int, b: int| 0 <= a < b < keep@.len() implies keep@[a].0@
                != keep@[b].0@ by {
                assert(idx[a] > idx[b]);
            }
            assert forall|t: Seq<char>| #[trigger] kept(all, drop@, t) implies exists|k: int|
                0 <= k < keep@.len() && (#[trigger] keep@[k]).0@ == t by {
                let j = choose|j: int| 0 <= j < all.len() && !drop@[j] && (#[trigger] all[j]).0@ == t;
                let k = choose|k: int| 0 <= k < idx.len() && #[trigger] idx[k] == j;
                assert(keep@[k].0@ == t);
            }
            assert forall|t: Seq<char>|
                (exists|k: int| 0 <= k < keep@.len() && (#[trigger] keep@[k]).0@ == t) implies
                #[trigger] kept(all, drop@, t) by {
                let k = choose|k: int| 0 <= k < keep@.len() && (#[trigger] keep@[k]).0@ == t;
                assert(all[idx[k]].0@ == t);
            }
        }
        proof {
            assert(i == 0);
            if exists|j: int| 0 <= j < all.len() && drop@[j] {
                let j = choose|j: int| 0 <= j < all.len() && drop@[j];
                assert(i <= j < n && drop@[j]);
                let k = choose|k: int| 0 <= k < gone_idx.len() && #[trigger] gone_idx[k] == j;
                assert(gone@.len() > 0);
            }
        }
        (keep, gone, Ghost(idx), Ghost(gone_idx))
    }

    /// The registry of the entries `entries`, which `drop` left.
    proof fn lemma_partition_view(self, entries: Seq<(String, H)>, drop: Seq<bool>, idx: Seq<int>)
        requires
            distinct_names(entries),
            distinct_names(self.entries@),
            drop.len() == entries.len(),
            forall|t: Seq<char>|
                #![trigger kept(entries, drop, t)]
                kept(entries, drop, t) <==> exists|k: int|
                    0 <= k < self.entries@.len() && (#[trigger] self.entries@[k]).0@ == t,
            idx.len() == self.entries@.len(),
            forall|k: int|
                0 <= k < self.entries@.len() ==> 0 <= #[trigger] idx[k] < entries.len() && !drop[idx[k]]
                    && self.entries@[k] == entries[idx[k]],
        ensures
            forall|t: Seq<char>|
                #![trigger self@.contains_key(t)]
                self@.contains_key(t) <==> kept(entries, drop, t),
            forall|i: int|
                0 <= i < entries.len() && !drop[i] ==> self@.contains_key(entries[i].0@) && self@[entries[i].0@]
                    == entries[i].1,
    {
        assert forall|t: Seq<char>| #[trigger] self@.contains_key(t) <==> kept(entries, drop, t) by {
            if kept(entries, drop, t) {
                let k = choose|k: int| 0 <= k < self.entries@.len() && (#[trigger] self.entries@[k]).0@ == t;
                assert(self.entries@[k].0@ == t);
            }
        }
        assert forall|i: int| 0 <= i < entries.len() && !drop[i] implies self@.contains_key(
            entries[i].0@,
        ) && self@[entries[i].0@] == entries[i].1 by {
            let t = entries[i].0@;
            assert(kept(entries, drop, t));
            let k = choose|k: int| 0 <= k < self.entries@.len() && (#[trigger] self.entries@[k]).0@ == t;
            self.lemma_entry(k);
            let i2 = idx[k];
            assert(entries[i2].0@ == t);
            assert(i2 == i);
        }
    }

    /// Takes out the handle of `name`, if there is one.
    pub fn remove(&mut self, name: &str) -> (r: Option<H>)
        ensures
            final(self)@ == old(self)@.remove(name@),
            final(self).names_match(),
            r is Some <==> old(self)@.contains_key(name@),
            r matches Some(h) ==> h == old(self)@[name@],
    {
        proof {
            use_type_invariant(&*self);
        }
        let mut taken = Registry::new();
        core::mem::swap(self, &mut taken);
        let ghost previous = taken;
        let Registry { entries } = taken;
        let ghost all = entries@;
        let target = name.to_owned();
        let mut drop: Vec<bool> = Vec::new();
        let mut i: usize = 0;
        while i < entries.len()
            invariant
                target@ == name@,
                i <= entries@.len(),
                drop@.len() == i,
                forall|j: int| 0 <= j < i ==> drop@[j] == (entries@[j].0@ == name@),
            decreases entries@.len() - i,
        {
            drop.push(entries[i].0 == target);
            i = i + 1;
        }
        let (keep, mut gone, kidx, gidx) = Registry::partition(entries, &drop);
        let rest = Registry { entries: keep };
        proof {
            rest.lemma_partition_view(all, drop@, kidx@);
            assert forall|t: Seq<char>| #![auto]
                rest@.contains_key(t) == previous@.remove(name@).contains_key(t) by {
                if previous@.contains_key(t) && t != name@ {
                    let j = choose|j: int| 0 <= j < all.len() && all[j].0@ == t;
                    assert(kept(all, drop@, t));
                }
            }
            assert forall|t: Seq<char>| #[trigger] rest@.contains_key(t) implies rest@[t]
                == previous@.remove(name@)[t] by {
                let j = choose|j: int| 0 <= j < all.len() && !drop@[j] && (#[trigger] all[j]).0@ == t;
                previous.lemma_entry(j);
            }
            assert(rest@ =~= previous@.remove(name@));
            rest.lemma_names();
        }
        *self = rest;
        let popped = gone.pop();
        proof {
            if previous@.contains_key(name@) {
                let j = choose|j: int| 0 <= j < all.len() && all[j].0@ == name@;
                previous.lemma_entry(j);
                assert(drop@[j]);
            }
            if popped is Some {
                let k = gone@.len() as int;
                let j = gidx@[k];
                assert(popped->0 == all[j]);
                previous.lemma_entry(j);
            }
        }
        match popped {
            Some(entry) => Some(entry.1),
            None => None,
        }
    }

    /// Adds the handle of `name`, replacing the one it had.
    pub fn insert(&mut self, name: String, handle: H)
        ensures
            final(self)@ == old(self)@.insert(name@, handle),
            final(self).names_match(),
    {
        let _ = self.remove(name.as_str());
        let mut taken = Registry::new();
        core::mem::swap(self, &mut taken);
        let ghost previous = taken;
        proof {
            use_type_invariant(&taken);
        }
        let Registry { mut entries } = taken;
        let ghost n = entries@.len() as int;
        let ghost key = name@;
        entries.push((name, handle));
        proof {
            assert forall|a: int, b: int| 0 <= a < b < entries@.len() implies entries@[a].0@
                != entries@[b].0@ by {
                if b == n {
                    if entries@[a].0@ == key {
                        assert(previous.entries@[a].0@ == key);
                        assert(previous@.contains_key(key));
                    }
                } else {
                    assert(previous.entries@[a].0@ != previous.entries@[b].0@);
                }
            }
        }
        let grown = Registry { entries };
        proof {
            let m = previous@.insert(key, handle);
            assert forall|t: Seq<char>| #![auto] grown@.contains_key(t) == m.contains_key(t) by {
                if previous@.contains_key(t) {
                    let k = choose|k: int| 0 <= k < previous.entries@.len() && previous.entries@[k].0@ == t;
                    assert(grown.entries@[k].0@ == t);
                }
                if t == key {
                    assert(grown.entries@[n].0@ == t);
                }
                if grown@.contains_key(t) {
                    let k = choose|k: int| 0 <= k < grown.entries@.len() && grown.entries@[k].0@ == t;
                    if k != n {
                        assert(previous.entries@[k].0@ == t);
                    }
                }
            }
            assert forall|t: Seq<char>| #[trigger] grown@.contains_key(t) implies grown@[t]
                == m[t] by {
                let k = choose|k: int| 0 <= k < grown.entries@.len() && grown.entries@[k].0@ == t;
                grown.lemma_entry(k);
                if k != n {
                    previous.lemma_entry(k);
                }
            }
            assert(grown@ =~= m);
            grown.lemma_names();
        }
        *self = grown;
    }

    /// Drops the handles that nobody listened to: `connection_counts[i]` is
    /// the number of subscribers that the handle at position `i` had when
    /// the sweep looked.
    pub fn collect_garbage(&mut self, connection_counts: &Vec<usize>)
        requires
            connection_counts@.len() == old(self).names().len(),
        ensures
            final(self).names_match(),
            forall|i: int|
                0 <= i < old(self).names().len() ==> (final(self)@.contains_key(
                    #[trigger] old(self).names()[i],
                ) <==> connection_counts@[i] > 0),
            forall|t: Seq<char>|
                #[trigger] final(self)@.contains_key(t) ==> old(self)@.contains_key(t)
                    && final(self)@[t] == old(self)@[t],
    {
        proof {
            use_type_invariant(&*self);
        }
        let mut taken = Registry::new();
        core::mem::swap(self, &mut taken);
        let ghost previous = taken;
        let Registry { entries } = taken;
        let ghost all = entries@;
        let mut drop: Vec<bool> = Vec::new();
        let mut i: usize = 0;
        while i < entries.len()
            invariant
                i <= entries@.len(),
                entries@.len() == connection_counts@.len(),
                drop@.len() == i,
                forall|j: int| 0 <= j < i ==> drop@[j] == (connection_counts@[j] == 0),
            decreases entries@.len() - i,
        {
            drop.push(connection_counts[i] == 0);
            i = i + 1;
        }
        let (keep, _gone, kidx, _gidx) = Registry::partition(entries, &drop);
        let rest = Registry { entries: keep };
        proof {
            rest.lemma_partition_view(all, drop@, kidx@);
            rest.lemma_names();
            assert forall|i: int| 0 <= i < previous.names().len() implies (rest@.contains_key(
                #[trigger] previous.names()[i],
            ) <==> connection_counts@[i] > 0) by {
                let t = all[i].0@;
                if rest@.contains_key(t) {
                    let j = choose|j: int| 0 <= j < all.len() && !drop@[j] && (#[trigger] all[j]).0@ == t;
                    assert(j == i);
                }
            }
            assert forall|t: Seq<char>| #[trigger] rest@.contains_key(t) implies previous@.contains_key(t)
                && rest@[t] == previous@[t] by {
                let j = choose|j: int| 0 <= j < all.len() && !drop@[j] && (#[trigger] all[j]).0@ == t;
                previous.lemma_entry(j);
            }
        }
        *self = rest;
    }
}

} // verus!
