//! The birthday table: at most one record per owner.
use crate::date::is_valid_day_month;
use vstd::prelude::*;

verus! {

/// What the table holds for one owner: day, month and display name.
pub type Entry = (u32, u32, Seq<char>);

/// The table as a map from owner identity to entry.
pub type Table = Map<Seq<char>, Entry>;

/// Why a store operation did not happen.
#[derive(Clone, Copy, Debug, PartialEq, Eq, Structural)]
pub enum StoreError {
    /// The owner already has a record.
    Conflict,
    /// The owner has no record.
    NotFound,
    /// The storage medium failed.
    StorageError,
}

/// One owner's birthday.
#[derive(Debug)]
pub struct BirthdayRecord {
    pub owner_id: String,
    pub day: u32,
    pub month: u32,
    pub display_name: String,
}

impl BirthdayRecord {
    pub open spec fn entry(&self) -> Entry {
        (self.day, self.month, self.display_name@)
    }
}

/// Every entry holds a valid day and month.
pub open spec fn table_dates_valid(t: Table) -> bool {
    forall|k: Seq<char>| #[trigger] t.contains_key(k) ==> is_valid_day_month(t[k].0 as int, t[k].1 as int)
}

/// `insert`: a new record for an owner that has none.
pub open spec fn insert_spec(t: Table, owner: Seq<char>, day: u32, month: u32, name: Seq<char>) -> (Table, Result<(), StoreError>) {
    if t.contains_key(owner) {
        (t, Err(StoreError::Conflict))
    } else {
        (t.insert(owner, (day, month, name)), Ok(()))
    }
}

/// `update`: a new day and month, and a new name where one is given, for an
/// owner that has a record.
pub open spec fn update_spec(t: Table, owner: Seq<char>, day: u32, month: u32, name: Option<Seq<char>>) -> (Table, Result<(), StoreError>) {
    if t.contains_key(owner) {
        let kept = match name {
            Some(n) => n,
            None => t[owner].2,
        };
        (t.insert(owner, (day, month, kept)), Ok(()))
    } else {
        (t, Err(StoreError::NotFound))
    }
}

/// `remove`: the owner's record goes.
pub open spec fn remove_spec(t: Table, owner: Seq<char>) -> (Table, Result<(), StoreError>) {
    if t.contains_key(owner) {
        (t.remove(owner), Ok(()))
    } else {
        (t, Err(StoreError::NotFound))
    }
}

/// `get`: the owner's entry.
pub open spec fn get_spec(t: Table, owner: Seq<char>) -> Result<Entry, StoreError> {
    if t.contains_key(owner) {
        Ok(t[owner])
    } else {
        Err(StoreError::NotFound)
    }
}

/// The birthday table. Its view maps each owner to their entry.
pub struct BirthdayStore {
    records: Vec<BirthdayRecord>,
    table: Ghost<Table>,
}

impl View for BirthdayStore {
    type V = Table;

    closed spec fn view(&self) -> Table {
        self.table@
    }
}

impl BirthdayStore {
    /// The records and the map agree, owners are unique, and every date is
    /// valid.
    pub closed spec fn wf(&self) -> bool {
        let r = self.records@;
        let t = self.table@;
        &&& forall|i: int, j: int|
            0 <= i < r.len() && 0 <= j < r.len() && i != j ==> #[trigger] r[i].owner_id@
                != #[trigger] r[j].owner_id@
        &&& forall|i: int|
            0 <= i < r.len() ==> t.contains_key(#[trigger] r[i].owner_id@) && t[r[i].owner_id@]
                == r[i].entry()
        &&& forall|k: Seq<char>|
            #[trigger] t.contains_key(k) ==> exists|i: int| 0 <= i < r.len() && r[i].owner_id@ == k
        &&& table_dates_valid(t)
    }

    /// An empty table.
    pub fn new() -> (s: Self)
        ensures
            s.wf(),
            s@ == Table::empty(),
    {
        BirthdayStore { records: Vec::new(), table: Ghost(Map::empty()) }
    }

    /// Where the owner's record stands in `records`.
    fn position(&self, owner_id: &str) -> (r: Option<usize>)
        requires
            self.wf(),
        ensures
            match r {
                Some(i) => i < self.records@.len() && self.records@[i as int].owner_id@ == owner_id@,
                None => !self@.contains_key(owner_id@),
            },
    {
        let key = String::from_str(owner_id);
        let mut i: usize = 0;
        while i < self.records.len()
            invariant
                self.wf(),
                key@ == owner_id@,
                i <= self.records@.len(),
                forall|j: int| 0 <= j < i ==> self.records@[j].owner_id@ != owner_id@,
            decreases self.records@.len() - i,
        {
            if self.records[i].owner_id == key {
                return Some(i);
            }
            i = i + 1;
        }
        proof {
            if self@.contains_key(owner_id@) {
                let j = choose|j: int| 0 <= j < self.records@.len() && self.records@[j].owner_id@ == owner_id@;
                assert(self.records@[j].owner_id@ != owner_id@);
            }
        }
        None
    }

    /// Whether the owner has a record.
    pub fn has_record(&self, owner_id: &str) -> (r: bool)
        requires
            self.wf(),
        ensures
            r == self@.contains_key(owner_id@),
    {
        match self.position(owner_id) {
            Some(_) => true,
            None => false,
        }
    }

    /// Adds a record for an owner that has none; `Conflict` where they have one.
    pub fn insert(&mut self, owner_id: &str, day: u32, month: u32, display_name: &str) -> (r: Result<(), StoreError>)
        requires
            old(self).wf(),
            is_valid_day_month(day as int, month as int),
        ensures
            final(self).wf(),
            (final(self)@, r) == insert_spec(old(self)@, owner_id@, day, month, display_name@),
    {
        if self.position(owner_id).is_some() {
            return Err(StoreError::Conflict);
        }
        let rec = BirthdayRecord {
            owner_id: String::from_str(owner_id),
            day,
            month,
            display_name: String::from_str(display_name),
        };
        let ghost old_r = self.records@;
        self.records.push(rec);
        self.table = Ghost(self.table@.insert(owner_id@, (day, month, display_name@)));
        proof {
            let r = self.records@;
            let t = self.table@;
            assert(r.len() == old_r.len() + 1);
            assert forall|i: int| 0 <= i < r.len() implies t.contains_key(#[trigger] r[i].owner_id@) && t[r[i].owner_id@] == r[i].entry() by {
                if i < old_r.len() {
                    assert(r[i] == old_r[i]);
                }
            }
            assert forall|k: Seq<char>| #[trigger] t.contains_key(k) implies exists|i: int| 0 <= i < r.len() && r[i].owner_id@ == k by {
                if k == owner_id@ {
                    assert(r[old_r.len() as int].owner_id@ == k);
                } else {
                    let j = choose|j: int| 0 <= j < old_r.len() && old_r[j].owner_id@ == k;
                    assert(r[j] == old_r[j]);
                }
            }
        }
        Ok(())
    }

    /// Sets the day and month of the owner's record, and its display name
    /// where one is given; `NotFound` where the owner has no record.
    pub fn update(&mut self, owner_id: &str, day: u32, month: u32, display_name: Option<&str>) -> (r: Result<(), StoreError>)
        requires
            old(self).wf(),
            is_valid_day_month(day as int, month as int),
        ensures
            final(self).wf(),
            (final(self)@, r) == update_spec(
                old(self)@,
                owner_id@,
                day,
                month,
                match display_name {
                    Some(n) => Some(n@),
                    None => None,
                },
            ),
    {
        let i = match self.position(owner_id) {
            Some(i) => i,
            None => return Err(StoreError::NotFound),
        };
        let name = match display_name {
            Some(n) => String::from_str(n),
            None => self.records[i].display_name.clone(),
        };
        let rec = BirthdayRecord { owner_id: self.records[i].owner_id.clone(), day, month, display_name: name };
        let ghost old_r = self.records@;
        let ghost e = rec.entry();
        self.records.set(i, rec);
        self.table = Ghost(self.table@.insert(owner_id@, e));
        proof {
            let r = self.records@;
            let t = self.table@;
            assert(r[i as int].owner_id@ == owner_id@);
            assert forall|a: int, b: int| 0 <= a < r.len() && 0 <= b < r.len() && a != b implies #[trigger] r[a].owner_id@
                != #[trigger] r[b].owner_id@ by {
                assert(r[a].owner_id@ == old_r[a].owner_id@);
                assert(r[b].owner_id@ == old_r[b].owner_id@);
            }
            assert forall|a: int| 0 <= a < r.len() implies t.contains_key(#[trigger] r[a].owner_id@) && t[r[a].owner_id@] == r[a].entry() by {
                if a != i {
                    assert(r[a] == old_r[a]);
                    assert(old_r[a].owner_id@ != old_r[i as int].owner_id@);
                }
            }
            assert forall|k: Seq<char>| #[trigger] t.contains_key(k) implies exists|a: int| 0 <= a < r.len() && r[a].owner_id@ == k by {
                if k == owner_id@ {
                    assert(r[i as int].owner_id@ == k);
                } else {
                    let j = choose|j: int| 0 <= j < old_r.len() && old_r[j].owner_id@ == k;
                    assert(r[j].owner_id@ == old_r[j].owner_id@);
                }
            }
        }
        Ok(())
    }

    /// Deletes the owner's record; `NotFound` where there is none.
    pub fn remove(&mut self, owner_id: &str) -> (r: Result<(), StoreError>)
        requires
            old(self).wf(),
        ensures
            final(self).wf(),
            (final(self)@, r) == remove_spec(old(self)@, owner_id@),
    {
        let i = match self.position(owner_id) {
            Some(i) => i,
            None => return Err(StoreError::NotFound),
        };
        let ghost old_r = self.records@;
        let _gone = self.records.remove(i);
        self.table = Ghost(self.table@.remove(owner_id@));
        proof {
            let r = self.records@;
            let t = self.table@;
            assert forall|a: int| 0 <= a < r.len() implies #[trigger] r[a] == old_r[if a < i { a } else { a + 1 }] by {}
            assert forall|a: int, b: int| 0 <= a < r.len() && 0 <= b < r.len() && a != b implies #[trigger] r[a].owner_id@
                != #[trigger] r[b].owner_id@ by {
                assert(r[a] == old_r[if a < i { a } else { a + 1 }]);
                assert(r[b] == old_r[if b < i { b } else { b + 1 }]);
            }
            assert forall|a: int| 0 <= a < r.len() implies t.contains_key(#[trigger] r[a].owner_id@) && t[r[a].owner_id@] == r[a].entry() by {
                let oa = if a < i { a } else { a + 1 };
                assert(r[a] == old_r[oa]);
                assert(old_r[oa].owner_id@ != old_r[i as int].owner_id@);
            }
            assert forall|k: Seq<char>| #[trigger] t.contains_key(k) implies exists|a: int| 0 <= a < r.len() && r[a].owner_id@ == k by {
                let j = choose|j: int| 0 <= j < old_r.len() && old_r[j].owner_id@ == k;
                assert(j != i);
                let a = if j < i { j } else { j - 1 };
                assert(r[a] == old_r[j]);
            }
        }
        Ok(())
    }

    /// A copy of the owner's record; `NotFound` where there is none.
    pub fn get(&self, owner_id: &str) -> (r: Result<BirthdayRecord, StoreError>)
        requires
            self.wf(),
        ensures
            match r {
                Ok(rec) => rec.owner_id@ == owner_id@ && get_spec(self@, owner_id@) == Ok::<Entry, StoreError>(rec.entry()),
                Err(e) => get_spec(self@, owner_id@) == Err::<Entry, StoreError>(e),
            },
            r matches Ok(rec) ==> is_valid_day_month(rec.day as int, rec.month as int),
    {
        match self.position(owner_id) {
            Some(i) => {
                let rec = &self.records[i];
                Ok(BirthdayRecord {
                    owner_id: rec.owner_id.clone(),
                    day: rec.day,
                    month: rec.month,
                    display_name: rec.display_name.clone(),
                })
            },
            None => Err(StoreError::NotFound),
        }
    }
}

} // verus!
