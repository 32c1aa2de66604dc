//! The registry of tables: a slot per table id, each ready to serve or held
//! in a transitional state by a schema change.
use vstd::prelude::*;

use crate::error::Error;
use crate::table_state::{TableNonOperationalState, TableState};

verus! {

/// Id of the reserved table that holds the definitions of all others.
pub open spec fn schema_table() -> Seq<char> {
    "schemas"@
}

/// Id of the reserved table that holds the definitions of all others.
pub fn schema_table_id() -> (r: String)
    ensures
        r@ == schema_table(),
{
    "schemas".to_owned()
}

/// The reserved table has a slot and it is ready.
pub open spec fn schema_ready<T>(m: Map<Seq<char>, TableState<T>>) -> bool {
    m.contains_key(schema_table()) && m[schema_table()] is Operational
}

/// The slots of the registry, a vector of entries with distinct table ids.
pub struct State<T> {
    tables: Vec<(String, TableState<T>)>,
    model: Ghost<Map<Seq<char>, TableState<T>>>,
}

impl<T> View for State<T> {
    type V = Map<Seq<char>, TableState<T>>;

    closed spec fn view(&self) -> Map<Seq<char>, TableState<T>> {
        self.model@
    }
}

/// What a read of table `id` finds in registry `m`.
pub open spec fn read_spec<T>(m: Map<Seq<char>, TableState<T>>, id: String) -> Result<T, Error> {
    if !m.contains_key(id@) {
        Err(Error::TableNotFound(id))
    } else {
        match m[id@] {
            TableState::Operational(o) => Ok(o),
            TableState::NonOperational(s) => Err(Error::TableNotReady(id, s)),
        }
    }
}

impl<T> State<T> {
    pub closed spec fn wf(&self) -> bool {
        &&& forall|i: int, j: int|
            0 <= i < j < self.tables@.len() ==> #[trigger] self.tables@[i].0@ != #[trigger] self.tables@[j].0@
        &&& forall|i: int|
            0 <= i < self.tables@.len() ==> self.model@.contains_key(#[trigger] self.tables@[i].0@)
                && self.model@[self.tables@[i].0@] == self.tables@[i].1
        &&& forall|k: Seq<char>|
            #[trigger] self.model@.contains_key(k) ==> exists|i: int|
                0 <= i < self.tables@.len() && #[trigger] self.tables@[i].0@ == k
    }

    /// A registry holding only the reserved table, ready with `schemas`.
    pub fn new(schemas: T) -> (r: Self)
        ensures
            r.wf(),
            r@ == Map::<Seq<char>, TableState<T>>::empty().insert(schema_table(), TableState::Operational(schemas)),
    {
        let mut r = State { tables: Vec::new(), model: Ghost(Map::empty()) };
        r.insert(schema_table_id(), TableState::Operational(schemas));
        r
    }

    fn find(&self, id: &String) -> (r: Option<usize>)
        requires
            self.wf(),
        ensures
            match r {
                Some(i) => i < self.tables@.len() && self.tables@[i as int].0@ == id@,
                None => !self@.contains_key(id@),
            },
    {
        let mut i: usize = 0;
        while i < self.tables.len()
            invariant
                self.wf(),
                i <= self.tables@.len(),
                forall|j: int| 0 <= j < i ==> #[trigger] self.tables@[j].0@ != id@,
            decreases self.tables@.len() - i,
        {
            if self.tables[i].0 == *id {
                return Some(i);
            }
            i = i + 1;
        }
        None
    }

    /// Takes the slot of `id` out of the registry.
    fn take_slot(&mut self, id: &String) -> (r: Option<TableState<T>>)
        requires
            old(self).wf(),
        ensures
            final(self).wf(),
            final(self)@ == old(self)@.remove(id@),
            r == old(self)@.get(id@),
    {
        match self.find(id) {
            Some(i) => {
                let ghost old_tables = self.tables@;
                let e = self.tables.remove(i);
                self.model = Ghost(self.model@.remove(id@));
                assert forall|j: int|
                    0 <= j < self.tables@.len() implies self.model@.contains_key(#[trigger] self.tables@[j].0@)
                    && self.model@[self.tables@[j].0@] == self.tables@[j].1 by {
                    if j < i {
                        assert(old_tables[j] == self.tables@[j]);
                    } else {
                        assert(old_tables[j + 1] == self.tables@[j]);
                    }
                }
                assert forall|key: Seq<char>| #[trigger] self.model@.contains_key(key) implies exists|j: int|
                    0 <= j < self.tables@.len() && #[trigger] self.tables@[j].0@ == key by {
                    let j = choose|j: int| 0 <= j < old_tables.len() && #[trigger] old_tables[j].0@ == key;
                    if j < i {
                        assert(self.tables@[j] == old_tables[j]);
                    } else {
                        assert(self.tables@[j - 1] == old_tables[j]);
                    }
                }
                assert forall|a: int, b: int|
                    0 <= a < b < self.tables@.len() implies #[trigger] self.tables@[a].0@
                    != #[trigger] self.tables@[b].0@ by {
                    let oa = if a < i { a } else { a + 1 };
                    let ob = if b < i { b } else { b + 1 };
                    assert(self.tables@[a] == old_tables[oa]);
                    assert(self.tables@[b] == old_tables[ob]);
                }
                Some(e.1)
            },
            None => {
                assert(self.model@.remove(id@) =~= self.model@);
                None
            },
        }
    }

    /// Sets the slot of `id`.
    pub fn insert(&mut self, id: String, slot: TableState<T>)
        requires
            old(self).wf(),
        ensures
            final(self).wf(),
            final(self)@ == old(self)@.insert(id@, slot),
    {
        let _ = self.take_slot(&id);
        let ghost mid = self.tables@;
        let ghost k = id@;
        self.tables.push((id, slot));
        self.model = Ghost(self.model@.insert(k, slot));
        assert forall|j: int|
            0 <= j < self.tables@.len() implies self.model@.contains_key(#[trigger] self.tables@[j].0@)
            && self.model@[self.tables@[j].0@] == self.tables@[j].1 by {
            if j < mid.len() {
                assert(self.tables@[j] == mid[j]);
            }
        }
        assert forall|key: Seq<char>| #[trigger] self.model@.contains_key(key) implies exists|j: int|
            0 <= j < self.tables@.len() && #[trigger] self.tables@[j].0@ == key by {
            if key == k {
                assert(self.tables@[mid.len() as int].0@ == key);
            } else {
                let j = choose|j: int| 0 <= j < mid.len() && #[trigger] mid[j].0@ == key;
                assert(self.tables@[j] == mid[j]);
            }
        }
        assert forall|a: int, b: int|
            0 <= a < b < self.tables@.len() implies #[trigger] self.tables@[a].0@
            != #[trigger] self.tables@[b].0@ by {
            assert(self.tables@[a] == mid[a]);
            if b < mid.len() {
                assert(self.tables@[b] == mid[b]);
            }
        }
        assert(self.model@ =~= old(self)@.insert(k, slot));
    }

    /// Removes the slot of `id`.
    pub fn remove(&mut self, id: &String)
        requires
            old(self).wf(),
        ensures
            final(self).wf(),
            final(self)@ == old(self)@.remove(id@),
    {
        let _ = self.take_slot(id);
    }

    /// The operational state of table `id`, for a reader: not found where
    /// there is no slot, not ready where the slot is transitional.
    pub fn read_table(&self, id: &String) -> (r: Result<&T, Error>)
        requires
            self.wf(),
        ensures
            match read_spec(self@, *id) {
                Ok(o) => r == Ok::<&T, Error>(&o),
                Err(e) => r == Err::<&T, Error>(e),
            },
    {
        match self.find(id) {
            Some(i) => self.tables[i].1.read(id),
            None => Err(Error::TableNotFound(id.clone())),
        }
    }

    /// Acquires table `id` for a schema change: its slot goes to
    /// `non_oper_state` and its operational state, if it had one, is handed
    /// out. Where there is no slot, one is made in `non_oper_state` if
    /// `create` is set. Fails where the reserved table is missing or not
    /// ready, or where the slot of `id` is already transitional; nothing
    /// changes then.
    pub fn write_table(&mut self, id: &String, non_oper_state: TableNonOperationalState, create: bool) -> (r: Result<Option<T>, Error>)
        requires
            old(self).wf(),
        ensures
            final(self).wf(),
            !schema_ready(old(self)@) ==> final(self)@ == old(self)@ && match r {
                Err(Error::TableNotFound(s)) => s@ == schema_table() && !old(self)@.contains_key(schema_table()),
                Err(Error::TableNotReady(s, st)) => s@ == schema_table() && old(self)@.contains_key(schema_table())
                    && old(self)@[schema_table()] == TableState::<T>::NonOperational(st),
                _ => false,
            },
            schema_ready(old(self)@) ==> if old(self)@.contains_key(id@) {
                    match old(self)@[id@] {
                        TableState::Operational(o) => r == Ok::<Option<T>, Error>(Some(o)) && final(self)@
                            == old(self)@.insert(id@, TableState::NonOperational(non_oper_state)),
                        TableState::NonOperational(s) => r == Err::<Option<T>, Error>(Error::TableNotReady(*id, s))
                            && final(self)@ == old(self)@,
                    }
                } else {
                    r == Ok::<Option<T>, Error>(None) && final(self)@ == (if create {
                        old(self)@.insert(id@, TableState::NonOperational(non_oper_state))
                    } else {
                        old(self)@
                    })
                },
    {
        let schemas = schema_table_id();
        match self.read_table(&schemas) {
            Err(e) => return Err(e),
            Ok(_) => {},
        }
        match self.take_slot(id) {
            Some(slot) => {
                let mut slot = slot;
                let taken = slot.take(id, non_oper_state);
                self.insert(id.clone(), slot);
                match taken {
                    Ok(o) => Ok(Some(o)),
                    Err(e) => {
                        assert(self@ =~= old(self)@);
                        Err(e)
                    },
                }
            },
            None => {
                if create {
                    self.insert(id.clone(), TableState::NonOperational(non_oper_state));
                }
                Ok(None)
            },
        }
    }

    /// Ends a schema change of table `id`: the slot is ready again with
    /// `state`, or is removed where there is none.
    pub fn finish_write(&mut self, id: &String, state: Option<T>)
        requires
            old(self).wf(),
        ensures
            final(self).wf(),
            final(self)@ == match state {
                Some(s) => old(self)@.insert(id@, TableState::Operational(s)),
                None => old(self)@.remove(id@),
            },
    {
        match state {
            Some(s) => self.insert(id.clone(), TableState::Operational(s)),
            None => self.remove(id),
        }
    }
}

} // verus!
