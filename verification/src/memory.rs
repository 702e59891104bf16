//! An executable backend that keeps its tables in memory.
//!
//! [`MemoryDatabase`] answers statements exactly as the reference semantics
//! say. It serves to run the catalog operations without a database server.
use crate::model::{
    bound_to, filter_push, has_id, lacks_id, not_bound_to, Database, LocationRecord, Tables,
};
use crate::protocol::{LibraryRecord, LibraryRow, Reply, Statement};
use vstd::prelude::*;

verus! {

/// A row of `indexed_paths`.
struct LocationRow {
    library_id: i64,
    location: String,
}

impl View for LocationRow {
    type V = LocationRecord;

    closed spec fn view(&self) -> LocationRecord {
        LocationRecord { library_id: self.library_id, location: self.location@ }
    }
}

impl DeepView for LocationRow {
    type V = LocationRecord;

    closed spec fn deep_view(&self) -> LocationRecord {
        self@
    }
}

/// The two tables and the id that was assigned last.
struct MemoryTables {
    libraries: Vec<LibraryRow>,
    locations: Vec<LocationRow>,
    last_id: i64,
}

impl View for MemoryTables {
    type V = Tables;

    closed spec fn view(&self) -> Tables {
        Tables {
            libraries: self.libraries.deep_view(),
            locations: self.locations.deep_view(),
            next_id: self.last_id + 1,
        }
    }
}

/// A backend in memory.
pub struct MemoryDatabase {
    committed: MemoryTables,
    pending: Option<MemoryTables>,
}

impl View for MemoryDatabase {
    type V = Database;

    closed spec fn view(&self) -> Database {
        Database {
            committed: self.committed@,
            pending: match self.pending {
                Some(tables) => Some(tables@),
                None => None,
            },
        }
    }
}

/// A copy of the given `library` rows.
fn copy_libraries(rows: &Vec<LibraryRow>) -> (copy: Vec<LibraryRow>)
    ensures
        copy.deep_view() == rows.deep_view(),
{
    let mut copy: Vec<LibraryRow> = Vec::new();
    let mut at: usize = 0;
    while at < rows.len()
        invariant
            at <= rows.len(),
            copy.len() == at,
            forall|i: int| 0 <= i < at ==> copy[i]@ == rows[i]@,
        decreases rows.len() - at,
    {
        let row = &rows[at];
        copy.push(
            LibraryRow { id: row.id, name: row.name.clone(), media_type: row.media_type.clone() },
        );
        at += 1;
    }
    assert(copy.deep_view() == rows.deep_view());
    copy
}

/// A copy of the given `indexed_paths` rows.
fn copy_locations(rows: &Vec<LocationRow>) -> (copy: Vec<LocationRow>)
    ensures
        copy.deep_view() == rows.deep_view(),
{
    let mut copy: Vec<LocationRow> = Vec::new();
    let mut at: usize = 0;
    while at < rows.len()
        invariant
            at <= rows.len(),
            copy.len() == at,
            forall|i: int| 0 <= i < at ==> copy[i]@ == rows[i]@,
        decreases rows.len() - at,
    {
        let row = &rows[at];
        copy.push(LocationRow { library_id: row.library_id, location: row.location.clone() });
        at += 1;
    }
    assert(copy.deep_view() == rows.deep_view());
    copy
}

/// The `library` rows with the given id, or those with another id.
fn select_libraries(rows: &Vec<LibraryRow>, id: i64, with_id: bool) -> (found: Vec<LibraryRow>)
    ensures
        found.deep_view() == rows.deep_view().filter(
            if with_id {
                has_id(id)
            } else {
                lacks_id(id)
            },
        ),
{
    let ghost keep = if with_id {
        has_id(id)
    } else {
        lacks_id(id)
    };
    let mut found: Vec<LibraryRow> = Vec::new();
    let mut at: usize = 0;
    assert(rows.deep_view().take(0) == Seq::<LibraryRecord>::empty());
    assert(found.deep_view() == Seq::<LibraryRecord>::empty());
    proof {
        reveal(Seq::filter);
    }
    while at < rows.len()
        invariant
            at <= rows.len(),
            keep == if with_id {
                has_id(id)
            } else {
                lacks_id(id)
            },
            found.deep_view() == rows.deep_view().take(at as int).filter(keep),
        decreases rows.len() - at,
    {
        let row = &rows[at];
        proof {
            filter_push(rows.deep_view().take(at as int), row@, keep);
            assert(rows.deep_view().take(at + 1) == rows.deep_view().take(at as int).push(row@));
        }
        if (row.id == id) == with_id {
            let ghost before = found.deep_view();
            found.push(LibraryRow {
                id: row.id,
                name: row.name.clone(),
                media_type: row.media_type.clone(),
            });
            assert(found.deep_view() == before.push(row@));
        }
        at += 1;
    }
    assert(rows.deep_view().take(rows.len() as int) == rows.deep_view());
    found
}

/// The `indexed_paths` rows of the given library, or those of the others.
fn select_locations(rows: &Vec<LocationRow>, id: i64, with_id: bool) -> (found: Vec<LocationRow>)
    ensures
        found.deep_view() == rows.deep_view().filter(
            if with_id {
                bound_to(id)
            } else {
                not_bound_to(id)
            },
        ),
{
    let ghost keep = if with_id {
        bound_to(id)
    } else {
        not_bound_to(id)
    };
    let mut found: Vec<LocationRow> = Vec::new();
    let mut at: usize = 0;
    assert(rows.deep_view().take(0) == Seq::<LocationRecord>::empty());
    assert(found.deep_view() == Seq::<LocationRecord>::empty());
    proof {
        reveal(Seq::filter);
    }
    while at < rows.len()
        invariant
            at <= rows.len(),
            keep == if with_id {
                bound_to(id)
            } else {
                not_bound_to(id)
            },
            found.deep_view() == rows.deep_view().take(at as int).filter(keep),
        decreases rows.len() - at,
    {
        let row = &rows[at];
        proof {
            filter_push(rows.deep_view().take(at as int), row@, keep);
            assert(rows.deep_view().take(at + 1) == rows.deep_view().take(at as int).push(row@));
        }
        if (row.library_id == id) == with_id {
            let ghost before = found.deep_view();
            found.push(LocationRow { library_id: row.library_id, location: row.location.clone() });
            assert(found.deep_view() == before.push(row@));
        }
        at += 1;
    }
    assert(rows.deep_view().take(rows.len() as int) == rows.deep_view());
    found
}

/// The paths of the given rows.
fn paths_of(rows: &Vec<LocationRow>) -> (paths: Vec<String>)
    ensures
        paths.deep_view() == rows.deep_view().map_values(|row: LocationRecord| row.location),
{
    let mut paths: Vec<String> = Vec::new();
    let mut at: usize = 0;
    while at < rows.len()
        invariant
            at <= rows.len(),
            paths.len() == at,
            forall|i: int| 0 <= i < at ==> paths[i]@ == rows[i].location@,
        decreases rows.len() - at,
    {
        paths.push(rows[at].location.clone());
        at += 1;
    }
    assert(paths.deep_view() == rows.deep_view().map_values(|row: LocationRecord| row.location));
    paths
}

impl MemoryTables {
    /// A copy of the tables.
    fn copy(&self) -> (copy: MemoryTables)
        ensures
            copy@ == self@,
    {
        MemoryTables {
            libraries: copy_libraries(&self.libraries),
            locations: copy_locations(&self.locations),
            last_id: self.last_id,
        }
    }

    /// Whether a `library` row has this id.
    fn has_library(&self, id: i64) -> (found: bool)
        ensures
            found == self@.has_library(id),
    {
        let mut at: usize = 0;
        while at < self.libraries.len()
            invariant
                at <= self.libraries.len(),
                forall|i: int| 0 <= i < at ==> self.libraries.deep_view()[i].id != id,
            decreases self.libraries.len() - at,
        {
            if self.libraries[at].id == id {
                assert(self@.libraries[at as int].id == id);
                return true;
            }
            at += 1;
        }
        false
    }

    /// Whether an `indexed_paths` row refers to this library.
    fn has_locations(&self, id: i64) -> (found: bool)
        ensures
            found == self@.has_locations(id),
    {
        let mut at: usize = 0;
        while at < self.locations.len()
            invariant
                at <= self.locations.len(),
                forall|i: int| 0 <= i < at ==> self.locations.deep_view()[i].library_id != id,
            decreases self.locations.len() - at,
        {
            if self.locations[at].library_id == id {
                assert(self@.locations[at as int].library_id == id);
                return true;
            }
            at += 1;
        }
        false
    }
}

impl MemoryTables {
    /// Carries out a statement on these tables.
    fn execute(&mut self, statement: &Statement) -> (reply: Reply)
        ensures
            (final(self)@, reply@) == Database::execute(old(self)@, statement@),
    {
        match statement {
            Statement::SelectLibraries => Reply::Libraries(copy_libraries(&self.libraries)),
            Statement::SelectLibrary { id } => Reply::Libraries(
                select_libraries(&self.libraries, *id, true),
            ),
            Statement::SelectLocations { library_id } => {
                let rows = select_locations(&self.locations, *library_id, true);
                Reply::Locations(paths_of(&rows))
            },
            Statement::InsertLibrary { name, media_type } => {
                if self.last_id == i64::MAX {
                    Reply::Failed
                } else {
                    let id: i64 = self.last_id + 1;
                    let ghost before = self.libraries.deep_view();
                    let row = LibraryRow {
                        id,
                        name: name.clone(),
                        media_type: media_type.encode(),
                    };
                    self.libraries.push(row);
                    self.last_id = id;
                    assert(self.libraries.deep_view() == before.push(row@));
                    Reply::Executed { rows_affected: 1, generated_id: Some(id) }
                }
            },
            Statement::InsertLocation { location, library_id } => {
                if self.has_library(*library_id) {
                    let ghost before = self.locations.deep_view();
                    let row = LocationRow { library_id: *library_id, location: location.clone() };
                    self.locations.push(row);
                    assert(self.locations.deep_view() == before.push(row@));
                    Reply::Executed { rows_affected: 1, generated_id: None }
                } else {
                    Reply::Failed
                }
            },
            Statement::DeleteLocations { library_id } => {
                let kept = select_locations(&self.locations, *library_id, false);
                proof {
                    self.locations.deep_view().lemma_filter_len(not_bound_to(*library_id));
                }
                let removed: usize = self.locations.len() - kept.len();
                self.locations = kept;
                Reply::Executed { rows_affected: removed as u64, generated_id: None }
            },
            Statement::DeleteLibrary { id } => {
                if self.has_locations(*id) {
                    Reply::Failed
                } else {
                    let kept = select_libraries(&self.libraries, *id, false);
                    proof {
                        self.libraries.deep_view().lemma_filter_len(lacks_id(*id));
                    }
                    let removed: usize = self.libraries.len() - kept.len();
                    self.libraries = kept;
                    Reply::Executed { rows_affected: removed as u64, generated_id: None }
                }
            },
            Statement::Begin => Reply::Failed,
            Statement::Commit => Reply::Failed,
        }
    }
}

impl MemoryDatabase {
    /// A database without rows and without an open transaction.
    pub fn new() -> (database: MemoryDatabase)
        ensures
            database@ == Database::empty(),
    {
        let tables = MemoryTables { libraries: Vec::new(), locations: Vec::new(), last_id: 0 };
        assert(tables.libraries.deep_view() == Seq::<LibraryRecord>::empty());
        assert(tables.locations.deep_view() == Seq::<LocationRecord>::empty());
        MemoryDatabase { committed: tables, pending: None }
    }

    /// Carries out a statement and answers it as the reference semantics say.
    pub fn respond(&mut self, statement: &Statement) -> (reply: Reply)
        ensures
            (final(self)@, reply@) == old(self)@.respond(statement@),
    {
        match statement {
            Statement::Begin => {
                if self.pending.is_some() {
                    Reply::Failed
                } else {
                    self.pending = Some(self.committed.copy());
                    Reply::Done
                }
            },
            Statement::Commit => {
                match self.pending.take() {
                    Some(tables) => {
                        self.committed = tables;
                        Reply::Done
                    },
                    None => Reply::Failed,
                }
            },
            _ => {
                match self.pending.take() {
                    Some(tables) => {
                        let mut tables = tables;
                        let reply = tables.execute(statement);
                        self.pending = Some(tables);
                        reply
                    },
                    None => self.committed.execute(statement),
                }
            },
        }
    }

    /// Ends the scope of an operation: rolls back what is not committed.
    pub fn release(&mut self)
        ensures
            final(self)@ == old(self)@.release(),
    {
        self.pending = None;
    }
}

} // verus!
