//! Per-database and per-table capabilities.
use vstd::prelude::*;

verus! {

/// Capabilities on one object: reading rows, and inserting, updating or
/// deleting them.
#[derive(Debug, Clone, Copy)]
pub struct PartialPermissions {
    pub read: bool,
    pub insert: bool,
    pub update: bool,
    pub delete: bool,
}

impl PartialPermissions {
    pub open spec fn none(self) -> bool {
        !self.read && !self.insert && !self.update && !self.delete
    }

    pub fn is_empty(&self) -> (r: bool)
        ensures
            r == self.none(),
    {
        !self.read && !self.insert && !self.update && !self.delete
    }
}

impl Default for PartialPermissions {
    fn default() -> (r: PartialPermissions)
        ensures
            r.none(),
    {
        PartialPermissions { read: false, insert: false, update: false, delete: false }
    }
}

/// Capabilities on one table: everything, or a set of operations.
#[derive(Debug, Clone, Copy)]
pub enum ObjectPermissions {
    Full,
    Partial(PartialPermissions),
}

impl ObjectPermissions {
    pub open spec fn can_read(self) -> bool {
        match self {
            ObjectPermissions::Full => true,
            ObjectPermissions::Partial(p) => p.read,
        }
    }

    pub open spec fn can_insert(self) -> bool {
        match self {
            ObjectPermissions::Full => true,
            ObjectPermissions::Partial(p) => p.insert,
        }
    }

    pub open spec fn can_update(self) -> bool {
        match self {
            ObjectPermissions::Full => true,
            ObjectPermissions::Partial(p) => p.update,
        }
    }

    pub open spec fn can_delete(self) -> bool {
        match self {
            ObjectPermissions::Full => true,
            ObjectPermissions::Partial(p) => p.delete,
        }
    }

    /// What a table that was never granted anything holds.
    pub open spec fn nothing() -> ObjectPermissions {
        ObjectPermissions::Partial(
            PartialPermissions { read: false, insert: false, update: false, delete: false },
        )
    }

    pub fn set_full(&mut self)
        ensures
            *final(self) == ObjectPermissions::Full,
    {
        *self = ObjectPermissions::Full;
    }

    /// Replaces the operations granted; full access stays full.
    pub fn set(&mut self, permissions: PartialPermissions)
        ensures
            *old(self) is Full ==> *final(self) == ObjectPermissions::Full,
            *old(self) is Partial ==> *final(self) == ObjectPermissions::Partial(permissions),
    {
        match self {
            ObjectPermissions::Full => {},
            ObjectPermissions::Partial(p) => {
                *p = permissions;
            },
        }
    }

    pub fn full(&self) -> (r: bool)
        ensures
            r == (*self is Full),
    {
        match self {
            ObjectPermissions::Full => true,
            _ => false,
        }
    }

    pub fn read(&self) -> (r: bool)
        ensures
            r == self.can_read(),
    {
        match self {
            ObjectPermissions::Full => true,
            ObjectPermissions::Partial(p) => p.read,
        }
    }

    pub fn insert(&self) -> (r: bool)
        ensures
            r == self.can_insert(),
    {
        match self {
            ObjectPermissions::Full => true,
            ObjectPermissions::Partial(p) => p.insert,
        }
    }

    pub fn update(&self) -> (r: bool)
        ensures
            r == self.can_update(),
    {
        match self {
            ObjectPermissions::Full => true,
            ObjectPermissions::Partial(p) => p.update,
        }
    }

    pub fn delete(&self) -> (r: bool)
        ensures
            r == self.can_delete(),
    {
        match self {
            ObjectPermissions::Full => true,
            ObjectPermissions::Partial(p) => p.delete,
        }
    }
}

impl Default for ObjectPermissions {
    fn default() -> (r: ObjectPermissions)
        ensures
            r == ObjectPermissions::nothing(),
    {
        ObjectPermissions::Partial(PartialPermissions::default())
    }
}

/// Table names with the capabilities granted on each; a name occurs once.
#[derive(Debug)]
pub struct TablePermissions {
    entries: Vec<(String, ObjectPermissions)>,
}

impl View for TablePermissions {
    type V = Map<Seq<char>, ObjectPermissions>;

    closed spec fn view(&self) -> Map<Seq<char>, ObjectPermissions> {
        Map::new(
            |t: Seq<char>| exists|i: int| 0 <= i < self.entries@.len() && self.entries@[i].0@ == t,
            |t: Seq<char>|
                self.entries@[choose|i: int|
                    0 <= i < self.entries@.len() && self.entries@[i].0@ == t].1,
        )
    }
}

impl TablePermissions {
    #[verifier::type_invariant]
    closed spec fn names_unique(&self) -> bool {
        forall|i: int, j: int|
            0 <= i < j < self.entries@.len() ==> self.entries@[i].0@ != self.entries@[j].0@
    }

    proof fn lemma_entry(&self, i: int)
        requires
            self.names_unique(),
            0 <= i < self.entries@.len(),
        ensures
            self@.contains_key(self.entries@[i].0@),
            self@[self.entries@[i].0@] == self.entries@[i].1,
    {
        let t = self.entries@[i].0@;
        assert(self@.dom().contains(t));
        let j = choose|j: int| 0 <= j < self.entries@.len() && self.entries@[j].0@ == t;
        assert(j == i);
    }

    pub fn new() -> (r: TablePermissions)
        ensures
            r@ == Map::<Seq<char>, ObjectPermissions>::empty(),
    {
        let r = TablePermissions { entries: Vec::new() };
        assert(r@ =~= Map::<Seq<char>, ObjectPermissions>::empty());
        r
    }

    pub fn is_empty(&self) -> (r: bool)
        ensures
            r == (self@ == Map::<Seq<char>, ObjectPermissions>::empty()),
    {
        proof {
            use_type_invariant(self);
        }
        if self.entries.len() == 0 {
            assert(self@ =~= Map::<Seq<char>, ObjectPermissions>::empty());
            true
        } else {
            proof {
                self.lemma_entry(0);
            }
            false
        }
    }

    /// Position of the table named `t` among the entries.
    fn position(&self, t: &String) -> (r: Option<usize>)
        ensures
            r is None ==> !self@.contains_key(t@),
            r matches Some(i) ==> i < self.entries@.len() && self.entries@[i as int].0@ == t@
                && self@.contains_key(t@) && self@[t@] == self.entries@[i as int].1,
    {
        proof {
            use_type_invariant(self);
        }
        let mut i: usize = 0;
        while i < self.entries.len()
            invariant
                self.names_unique(),
                i <= self.entries@.len(),
                forall|j: int| 0 <= j < i ==> self.entries@[j].0@ != t@,
            decreases self.entries@.len() - i,
        {
            if self.entries[i].0 == *t {
                proof {
                    self.lemma_entry(i as int);
                }
                return Some(i);
            }
            i = i + 1;
        }
        None
    }

    pub fn get(&self, table_name: &str) -> (r: Option<ObjectPermissions>)
        ensures
            r == (if self@.contains_key(table_name@) {
                Some(self@[table_name@])
            } else {
                None::<ObjectPermissions>
            }),
    {
        let t = table_name.to_owned();
        match self.position(&t) {
            Some(i) => Some(self.entries[i].1),
            None => None,
        }
    }

    /// Sets the capabilities of a table, replacing what it had.
    pub fn insert(&mut self, table_name: String, permissions: ObjectPermissions)
        ensures
            final(self)@ == old(self)@.insert(table_name@, permissions),
    {
        proof {
            use_type_invariant(&*self);
        }
        let ghost before = self.entries@;
        let found = self.position(&table_name);
        let mut entries: Vec<(String, ObjectPermissions)> = Vec::new();
        let mut i: usize = 0;
        while i < self.entries.len()
            invariant
                before == self.entries@,
                i <= before.len(),
                entries@.len() == i,
                found matches Some(k) ==> k < before.len() && before[k as int].0@ == table_name@,
                forall|j: int|
                    0 <= j < i ==> #[trigger] entries@[j] == (if found == Some(j as usize) {
                        (table_name, permissions)
                    } else {
                        before[j]
                    }),
            decreases before.len() - i,
        {
            if found == Some(i) {
                entries.push((table_name.clone(), permissions));
            } else {
                let name = self.entries[i].0.clone();
                entries.push((name, self.entries[i].1));
            }
            i = i + 1;
        }
        let ghost n = before.len() as int;
        if found.is_none() {
            entries.push((table_name, permissions));
        }
        proof {
            assert forall|a: int, b: int|
                0 <= a < b < entries@.len() implies entries@[a].0@ != entries@[b].0@ by {
                if b == n {
                    assert(before[a].0@ != table_name@ || old(self)@.contains_key(table_name@));
                } else if found == Some(a as usize) {
                    assert(before[b].0@ != before[a].0@);
                } else if found == Some(b as usize) {
                    assert(before[b].0@ != before[a].0@);
                } else {
                    assert(before[b].0@ != before[a].0@);
                }
            }
        }
        let updated = TablePermissions { entries };
        proof {
            let m = old(self)@.insert(table_name@, permissions);
            assert forall|t: Seq<char>| #![auto] updated@.contains_key(t) == m.contains_key(t) by {
                if old(self)@.contains_key(t) {
                    let k = choose|k: int| 0 <= k < before.len() && before[k].0@ == t;
                    assert(updated.entries@[k].0@ == t);
                }
                if t == table_name@ {
                    match found {
                        Some(k) => assert(updated.entries@[k as int].0@ == t),
                        None => assert(updated.entries@[n].0@ == t),
                    }
                }
                if updated@.contains_key(t) {
                    let k = choose|k: int|
                        0 <= k < updated.entries@.len() && updated.entries@[k].0@ == t;
                    if k < n && found != Some(k as usize) {
                        assert(before[k].0@ == t);
                    }
                }
            }
            assert forall|t: Seq<char>| #[trigger] updated@.contains_key(t) implies updated@[t]
                == m[t] by {
                let k = choose|k: int|
                    0 <= k < updated.entries@.len() && updated.entries@[k].0@ == t;
                updated.lemma_entry(k);
                if k < n && found != Some(k as usize) {
                    old(self).lemma_entry(k);
                }
            }
            assert(updated@ =~= m);
        }
        *self = updated;
    }
}

impl TablePermissions {
    /// The names of the tables that may be read, each once.
    pub fn readable_names(&self) -> (r: Vec<String>)
        ensures
            forall|t: Seq<char>|
                #![trigger self@.contains_key(t)]
                (self@.contains_key(t) && self@[t].can_read()) <==> exists|i: int|
                    0 <= i < r@.len() && (#[trigger] r@[i])@ == t,
            forall|i: int, j: int| 0 <= i < j < r@.len() ==> r@[i]@ != r@[j]@,
    {
        proof {
            use_type_invariant(self);
        }
        let mut names: Vec<String> = Vec::new();
        let ghost mut idx: Seq<int> = Seq::empty();
        let mut i: usize = 0;
        while i < self.entries.len()
            invariant
                self.names_unique(),
                i <= self.entries@.len(),
                idx.len() == names@.len(),
                forall|k: int|
                    0 <= k < idx.len() ==> 0 <= #[trigger] idx[k] < i && self.entries@[idx[k]].1.can_read()
                        && names@[k]@ == self.entries@[idx[k]].0@,
                forall|a: int, b: int| 0 <= a < b < idx.len() ==> idx[a] < idx[b],
                forall|j: int|
                    0 <= j < i && (#[trigger] self.entries@[j]).1.can_read() ==> exists|k: int|
                        0 <= k < idx.len() && #[trigger] idx[k] == j,
            decreases self.entries@.len() - i,
        {
            if self.entries[i].1.read() {
                let name = self.entries[i].0.clone();
                names.push(name);
                proof {
                    let old_idx = idx;
                    idx = idx.push(i as int);
                    assert forall|j: int|
                        0 <= j < i + 1 && (#[trigger] self.entries@[j]).1.can_read() implies exists|k: int|
                        0 <= k < idx.len() && #[trigger] idx[k] == j by {
                        if j == i {
                            assert(idx[idx.len() - 1] == j);
                        } else {
                            let k = choose|k: int| 0 <= k < old_idx.len() && #[trigger] old_idx[k] == j;
                            assert(idx[k] == j);
                        }
                    }
                }
            }
            i = i + 1;
        }
        proof {
            assert forall|a: int, b: int| 0 <= a < b < names@.len() implies names@[a]@ != names@[b]@ by {
                assert(idx[a] < idx[b]);
            }
            assert forall|t: Seq<char>| #[trigger]
                self@.contains_key(t) && self@[t].can_read() implies exists|i: int|
                    0 <= i < names@.len() && (#[trigger] names@[i])@ == t by {
                let j = choose|j: int| 0 <= j < self.entries@.len() && self.entries@[j].0@ == t;
                self.lemma_entry(j);
                assert(self.entries@[j].1.can_read());
                let k = choose|k: int| 0 <= k < idx.len() && #[trigger] idx[k] == j;
                assert(names@[k]@ == t);
            }
            assert forall|t: Seq<char>|
                (exists|i: int| 0 <= i < names@.len() && (#[trigger] names@[i])@ == t) implies #[trigger]
                self@.contains_key(t) && self@[t].can_read() by {
                let k = choose|k: int| 0 <= k < names@.len() && (#[trigger] names@[k])@ == t;
                self.lemma_entry(idx[k]);
            }
        }
        names
    }
}

/// The table that a record of permissions names, if any.
pub open spec fn record_table(record: (Option<String>, ObjectPermissions)) -> Option<Seq<char>> {
    match record.0 {
        Some(n) => Some(n@),
        None => None,
    }
}

impl TablePermissions {
    /// Each table with its capabilities, each table once.
    pub fn records(&self) -> (r: Vec<(Option<String>, ObjectPermissions)>)
        ensures
            forall|k: int|
                #![trigger r@[k]]
                0 <= k < r@.len() ==> {
                    &&& record_table(r@[k]) is Some
                    &&& self@.contains_key(record_table(r@[k])->0)
                    &&& self@[record_table(r@[k])->0] == r@[k].1
                },
            forall|t: Seq<char>|
                #[trigger] self@.contains_key(t) ==> exists|k: int|
                    0 <= k < r@.len() && record_table(#[trigger] r@[k]) == Some(t),
            forall|a: int, b: int|
                0 <= a < b < r@.len() ==> record_table(r@[a]) != record_table(r@[b]),
    {
        proof {
            use_type_invariant(self);
        }
        let mut records: Vec<(Option<String>, ObjectPermissions)> = Vec::new();
        let mut i: usize = 0;
        while i < self.entries.len()
            invariant
                self.names_unique(),
                i <= self.entries@.len(),
                records@.len() == i,
                forall|k: int|
                    #![trigger records@[k]]
                    0 <= k < i ==> record_table(records@[k]) == Some(self.entries@[k].0@)
                        && records@[k].1 == self.entries@[k].1,
            decreases self.entries@.len() - i,
        {
            let name = self.entries[i].0.clone();
            records.push((Some(name), self.entries[i].1));
            i = i + 1;
        }
        proof {
            assert forall|k: int| #![trigger records@[k]] 0 <= k < records@.len() implies {
                &&& record_table(records@[k]) is Some
                &&& self@.contains_key(record_table(records@[k])->0)
                &&& self@[record_table(records@[k])->0] == records@[k].1
            } by {
                self.lemma_entry(k);
            }
            assert forall|t: Seq<char>| #[trigger] self@.contains_key(t) implies exists|k: int|
                0 <= k < records@.len() && record_table(#[trigger] records@[k]) == Some(t) by {
                let j = choose|j: int| 0 <= j < self.entries@.len() && self.entries@[j].0@ == t;
                assert(record_table(records@[j]) == Some(t));
            }
            assert forall|a: int, b: int| 0 <= a < b < records@.len() implies record_table(records@[a])
                != record_table(records@[b]) by {
                assert(self.entries@[a].0@ != self.entries@[b].0@);
            }
        }
        records
    }
}

impl Clone for TablePermissions {
    fn clone(&self) -> (r: TablePermissions)
        ensures
            r@ == self@,
    {
        proof {
            use_type_invariant(self);
        }
        let mut entries: Vec<(String, ObjectPermissions)> = Vec::new();
        let mut i: usize = 0;
        while i < self.entries.len()
            invariant
                self.names_unique(),
                i <= self.entries@.len(),
                entries@.len() == i,
                forall|j: int| 0 <= j < i ==> #[trigger] entries@[j] == self.entries@[j],
            decreases self.entries@.len() - i,
        {
            let name = self.entries[i].0.clone();
            entries.push((name, self.entries[i].1));
            i = i + 1;
        }
        assert(entries@ =~= self.entries@);
        TablePermissions { entries }
    }
}

/// What a caller may do on one database.
///
/// `Create` is what the first user of a database that does not exist yet
/// receives: the owner, who may do everything.
#[derive(Debug, Clone)]
pub enum DatabasePermissions {
    Full,
    Create,
    Partial { database: PartialPermissions, tables: TablePermissions },
}

/// The tables a caller may read: all of them, or those named.
#[derive(Debug, PartialEq)]
pub enum AllowedTables {
    All,
    Listed(Vec<String>),
}

impl AllowedTables {
    pub fn is_empty(&self) -> (r: bool)
        ensures
            r == (self matches AllowedTables::Listed(v) && v@.len() == 0),
    {
        match self {
            AllowedTables::All => false,
            AllowedTables::Listed(tables) => tables.len() == 0,
        }
    }
}

impl Default for DatabasePermissions {
    fn default() -> (r: DatabasePermissions)
        ensures
            r.no_rights(),
    {
        DatabasePermissions::Partial {
            database: PartialPermissions::default(),
            tables: TablePermissions::new(),
        }
    }
}

impl DatabasePermissions {
    /// Nothing on the database and no table granted anything.
    pub open spec fn no_rights(&self) -> bool {
        self matches DatabasePermissions::Partial { database, tables } && database.none()
            && tables@ == Map::<Seq<char>, ObjectPermissions>::empty()
    }

    /// The capabilities on table `t`, where a table grant applies.
    pub open spec fn grant(&self, t: Seq<char>) -> Option<ObjectPermissions> {
        match self {
            DatabasePermissions::Partial { tables, .. } => if tables@.contains_key(t) {
                Some(tables@[t])
            } else {
                None
            },
            _ => None,
        }
    }

    pub open spec fn can_read_table(&self, t: Seq<char>) -> bool {
        match self {
            DatabasePermissions::Partial { database, .. } => database.read || (self.grant(t) matches Some(
                p,
            ) && p.can_read()),
            _ => true,
        }
    }

    pub open spec fn can_insert_table(&self, t: Seq<char>) -> bool {
        match self {
            DatabasePermissions::Partial { database, .. } => database.insert || (self.grant(
                t,
            ) matches Some(p) && p.can_insert()),
            _ => true,
        }
    }

    pub open spec fn can_update_table(&self, t: Seq<char>) -> bool {
        match self {
            DatabasePermissions::Partial { database, .. } => database.update || (self.grant(
                t,
            ) matches Some(p) && p.can_update()),
            _ => true,
        }
    }

    pub open spec fn can_delete_table(&self, t: Seq<char>) -> bool {
        match self {
            DatabasePermissions::Partial { database, .. } => database.delete || (self.grant(
                t,
            ) matches Some(p) && p.can_delete()),
            _ => true,
        }
    }

    pub open spec fn has_full_table(&self, t: Seq<char>) -> bool {
        match self {
            DatabasePermissions::Partial { .. } => self.grant(t) == Some(ObjectPermissions::Full),
            _ => true,
        }
    }

    /// Whether every table may be read.
    pub open spec fn reads_all(&self) -> bool {
        match self {
            DatabasePermissions::Partial { database, .. } => database.read,
            _ => true,
        }
    }

    pub fn set_full(&mut self)
        ensures
            *final(self) == DatabasePermissions::Full,
    {
        *self = DatabasePermissions::Full;
    }

    /// Replaces the operations granted on the whole database; `Full` and
    /// `Create` stay as they are.
    pub fn set(&mut self, permissions: PartialPermissions)
        ensures
            !(*old(self) is Partial) ==> *final(self) == *old(self),
            *old(self) is Partial ==> *final(self) is Partial && final(self)->database == permissions
                && final(self)->tables@ == old(self)->tables@,
    {
        match self {
            DatabasePermissions::Partial { database, .. } => {
                *database = permissions;
            },
            _ => {},
        }
    }

    fn with_table<F>(&mut self, table_name: String, f: F)
        where
            F: FnOnce(ObjectPermissions) -> ObjectPermissions,
        requires
            forall|p: ObjectPermissions| #[trigger] f.requires((p,)),
        ensures
            !(*old(self) is Partial) ==> *final(self) == *old(self),
            *old(self) is Partial ==> {
                &&& *final(self) is Partial
                &&& final(self)->database == old(self)->database
                &&& final(self)->tables@.dom() == old(self)->tables@.dom().insert(table_name@)
                &&& forall|t: Seq<char>|
                    t != table_name@ && #[trigger] old(self)->tables@.contains_key(t)
                        ==> final(self)->tables@[t] == old(self)->tables@[t]
                &&& f.ensures(
                    (
                        if old(self)->tables@.contains_key(table_name@) {
                            old(self)->tables@[table_name@]
                        } else {
                            ObjectPermissions::nothing()
                        },
                    ),
                    final(self)->tables@[table_name@],
                )
            },
    {
        match self {
            DatabasePermissions::Partial { tables, .. } => {
                let current = match tables.get(table_name.as_str()) {
                    Some(p) => p,
                    None => ObjectPermissions::default(),
                };
                let updated = f(current);
                tables.insert(table_name, updated);
            },
            _ => {},
        }
    }

    /// Grants everything on one table.
    pub fn set_table_full(&mut self, table_name: String)
        ensures
            !(*old(self) is Partial) ==> *final(self) == *old(self),
            *old(self) is Partial ==> *final(self) is Partial && final(self)->database == old(
                self,
            )->database && final(self)->tables@ == old(self)->tables@.insert(
                table_name@,
                ObjectPermissions::Full,
            ),
    {
        let ghost name = table_name@;
        self.with_table(
            table_name,
            (|t: ObjectPermissions| -> (r: ObjectPermissions)
                ensures
                    r == ObjectPermissions::Full,
                { ObjectPermissions::Full }),
        );
        proof {
            if *old(self) is Partial {
                assert(final(self)->tables@ =~= old(self)->tables@.insert(name, ObjectPermissions::Full));
            }
        }
    }

    /// Sets the operations granted on one table; a table with full access
    /// keeps it.
    pub fn set_table(&mut self, table_name: String, permissions: PartialPermissions)
        ensures
            !(*old(self) is Partial) ==> *final(self) == *old(self),
            *old(self) is Partial ==> *final(self) is Partial && final(self)->database == old(
                self,
            )->database && final(self)->tables@ == old(self)->tables@.insert(
                table_name@,
                if old(self)->tables@.contains_key(table_name@) && old(self)->tables@[table_name@] is Full {
                    ObjectPermissions::Full
                } else {
                    ObjectPermissions::Partial(permissions)
                },
            ),
    {
        let ghost name = table_name@;
        self.with_table(
            table_name,
            (|t: ObjectPermissions| -> (r: ObjectPermissions)
                ensures
                    t is Full ==> r == ObjectPermissions::Full,
                    t is Partial ==> r == ObjectPermissions::Partial(permissions),
                {
                    let mut t = t;
                    t.set(permissions);
                    t
                }),
        );
        proof {
            if *old(self) is Partial {
                let v = if old(self)->tables@.contains_key(name) && old(self)->tables@[name] is Full {
                    ObjectPermissions::Full
                } else {
                    ObjectPermissions::Partial(permissions)
                };
                assert(final(self)->tables@ =~= old(self)->tables@.insert(name, v));
            }
        }
    }

    /// What a caller persists of these permissions: first the database as a
    /// whole (`None`), then each table. `Full` and `Create` hold everything
    /// on the database.
    pub fn records(&self) -> (r: Vec<(Option<String>, ObjectPermissions)>)
        ensures
            r@.len() >= 1,
            r@[0].0 is None,
            !(*self is Partial) ==> r@.len() == 1 && r@[0].1 == ObjectPermissions::Full,
            self matches DatabasePermissions::Partial { database, tables } ==> {
                &&& r@[0].1 == ObjectPermissions::Partial(*database)
                &&& forall|k: int|
                    #![trigger r@[k]]
                    1 <= k < r@.len() ==> {
                        &&& record_table(r@[k]) is Some
                        &&& tables@.contains_key(record_table(r@[k])->0)
                        &&& tables@[record_table(r@[k])->0] == r@[k].1
                    }
                &&& forall|t: Seq<char>|
                    #[trigger] tables@.contains_key(t) ==> exists|k: int|
                        1 <= k < r@.len() && record_table(#[trigger] r@[k]) == Some(t)
                &&& forall|a: int, b: int|
                    1 <= a < b < r@.len() ==> record_table(r@[a]) != record_table(r@[b])
            },
    {
        let mut r: Vec<(Option<String>, ObjectPermissions)> = Vec::new();
        match self {
            DatabasePermissions::Partial { database, tables } => {
                r.push((None, ObjectPermissions::Partial(*database)));
                let mut rest = tables.records();
                let ghost others = rest@;
                r.append(&mut rest);
                proof {
                    assert forall|k: int| 1 <= k < r@.len() implies #[trigger] r@[k] == others[k - 1] by {}
                    assert forall|t: Seq<char>| #[trigger] tables@.contains_key(t) implies exists|k: int|
                        1 <= k < r@.len() && record_table(#[trigger] r@[k]) == Some(t) by {
                        let k = choose|k: int|
                            0 <= k < others.len() && record_table(#[trigger] others[k]) == Some(t);
                        assert(r@[k + 1] == others[k]);
                    }
                    assert forall|a: int, b: int| 1 <= a < b < r@.len() implies record_table(r@[a])
                        != record_table(r@[b]) by {
                        assert(r@[a] == others[a - 1]);
                        assert(r@[b] == others[b - 1]);
                    }
                }
            },
            _ => {
                r.push((None, ObjectPermissions::Full));
            },
        }
        r
    }

    pub fn is_empty(&self) -> (r: bool)
        ensures
            r == self.no_rights(),
    {
        match self {
            DatabasePermissions::Partial { database, tables } => database.is_empty()
                && tables.is_empty(),
            _ => false,
        }
    }

    pub fn full(&self) -> (r: bool)
        ensures
            r == (*self is Full),
    {
        match self {
            DatabasePermissions::Full => true,
            _ => false,
        }
    }

    pub fn create(&self) -> (r: bool)
        ensures
            r == (*self is Create),
    {
        match self {
            DatabasePermissions::Create => true,
            _ => false,
        }
    }

    /// Read access to the database as a whole.
    pub fn read(&self) -> (r: bool)
        ensures
            r == self.reads_all(),
    {
        match self {
            DatabasePermissions::Partial { database, .. } => database.read,
            _ => true,
        }
    }

    /// Insert access to the database as a whole.
    pub fn insert(&self) -> (r: bool)
        ensures
            r == (match self {
                DatabasePermissions::Partial { database, .. } => database.insert,
                _ => true,
            }),
    {
        match self {
            DatabasePermissions::Partial { database, .. } => database.insert,
            _ => true,
        }
    }

    pub fn full_table(&self, table_name: &str) -> (r: bool)
        ensures
            r == self.has_full_table(table_name@),
    {
        match self {
            DatabasePermissions::Partial { tables, .. } => match tables.get(table_name) {
                Some(p) => p.full(),
                None => false,
            },
            _ => true,
        }
    }

    pub fn read_table(&self, table_name: &str) -> (r: bool)
        ensures
            r == self.can_read_table(table_name@),
    {
        match self {
            DatabasePermissions::Partial { database, tables } => database.read || match tables.get(
                table_name,
            ) {
                Some(p) => p.read(),
                None => false,
            },
            _ => true,
        }
    }

    pub fn insert_table(&self, table_name: &str) -> (r: bool)
        ensures
            r == self.can_insert_table(table_name@),
    {
        match self {
            DatabasePermissions::Partial { database, tables } => database.insert || match tables.get(
                table_name,
            ) {
                Some(p) => p.insert(),
                None => false,
            },
            _ => true,
        }
    }

    pub fn update_table(&self, table_name: &str) -> (r: bool)
        ensures
            r == self.can_update_table(table_name@),
    {
        match self {
            DatabasePermissions::Partial { database, tables } => database.update || match tables.get(
                table_name,
            ) {
                Some(p) => p.update(),
                None => false,
            },
            _ => true,
        }
    }

    pub fn delete_table(&self, table_name: &str) -> (r: bool)
        ensures
            r == self.can_delete_table(table_name@),
    {
        match self {
            DatabasePermissions::Partial { database, tables } => database.delete || match tables.get(
                table_name,
            ) {
                Some(p) => p.delete(),
                None => false,
            },
            _ => true,
        }
    }

    /// The tables this caller may read: all of them when the database as a
    /// whole may be read, else the tables granted read access.
    pub fn readable_tables(&self) -> (r: AllowedTables)
        ensures
            self.reads_all() <==> r is All,
            r matches AllowedTables::Listed(v) ==> {
                &&& forall|t: Seq<char>|
                    #![trigger self.can_read_table(t)]
                    self.can_read_table(t) <==> exists|i: int|
                        0 <= i < v@.len() && (#[trigger] v@[i])@ == t
                &&& forall|i: int, j: int| 0 <= i < j < v@.len() ==> v@[i]@ != v@[j]@
            },
    {
        match self {
            DatabasePermissions::Partial { database, tables } => {
                if database.read {
                    AllowedTables::All
                } else {
                    AllowedTables::Listed(tables.readable_names())
                }
            },
            _ => AllowedTables::All,
        }
    }
}

} // verus!
