//! The reference semantics of a relational backend.
//!
//! Two tables, `library` and `indexed_paths`, and at most one open
//! transaction. A transaction works on a copy of the committed tables; a
//! commit puts the copy in their place, and releasing the scope without a
//! commit throws it away. Ids are assigned in increasing order and `library`
//! rows cannot be removed while `indexed_paths` rows refer to them.
//!
//! The laws of this crate are stated against these semantics. They say nothing
//! of a backend that behaves otherwise.
use crate::library::InsertableLibraryView;
use crate::protocol::{LibraryRecord, ReplyView, StatementView};
use vstd::prelude::*;

verus! {

/// A row of `indexed_paths`.
pub struct LocationRecord {
    pub library_id: i64,
    pub location: Seq<char>,
}

/// The rows the backend holds, oldest first, and the id it will assign next.
pub struct Tables {
    pub libraries: Seq<LibraryRecord>,
    pub locations: Seq<LocationRecord>,
    pub next_id: int,
}

/// The committed tables and, while a transaction is open, its working copy.
pub struct Database {
    pub committed: Tables,
    pub pending: Option<Tables>,
}

/// Holds of the `library` rows with this id.
pub open spec fn has_id(id: i64) -> spec_fn(LibraryRecord) -> bool {
    |row: LibraryRecord| row.id == id
}

/// Holds of the `library` rows with another id.
pub open spec fn lacks_id(id: i64) -> spec_fn(LibraryRecord) -> bool {
    |row: LibraryRecord| row.id != id
}

/// Holds of the `indexed_paths` rows of this library.
pub open spec fn bound_to(id: i64) -> spec_fn(LocationRecord) -> bool {
    |row: LocationRecord| row.library_id == id
}

/// Holds of the `indexed_paths` rows of other libraries.
pub open spec fn not_bound_to(id: i64) -> spec_fn(LocationRecord) -> bool {
    |row: LocationRecord| row.library_id != id
}

/// The rows that bind each of `paths` to library `id`.
pub open spec fn rows_for(id: i64, paths: Seq<Seq<char>>) -> Seq<LocationRecord> {
    paths.map_values(|path: Seq<char>| LocationRecord { library_id: id, location: path })
}

impl Tables {
    /// Tables without rows. The first id to be assigned is 1.
    pub open spec fn empty() -> Tables {
        Tables { libraries: Seq::empty(), locations: Seq::empty(), next_id: 1 }
    }

    /// Whether a `library` row has this id.
    pub open spec fn has_library(self, id: i64) -> bool {
        exists|i: int| 0 <= i < self.libraries.len() && #[trigger] self.libraries[i].id == id
    }

    /// Whether an `indexed_paths` row refers to this library.
    pub open spec fn has_locations(self, id: i64) -> bool {
        exists|i: int|
            0 <= i < self.locations.len() && #[trigger] self.locations[i].library_id == id
    }

    /// The `library` rows with this id.
    pub open spec fn libraries_with(self, id: i64) -> Seq<LibraryRecord> {
        self.libraries.filter(has_id(id))
    }

    /// The paths indexed under this library.
    pub open spec fn locations_of(self, id: i64) -> Seq<Seq<char>> {
        self.locations.filter(bound_to(id)).map_values(|row: LocationRecord| row.location)
    }

    /// The invariant of the tables: ids are positive, unique and below the
    /// next to be assigned, and every location belongs to a library.
    pub open spec fn wf(self) -> bool {
        &&& 1 <= self.next_id
        &&& forall|i: int|
            0 <= i < self.libraries.len() ==> 1 <= (#[trigger] self.libraries[i]).id
                < self.next_id
        &&& forall|i: int, j: int|
            0 <= i < j < self.libraries.len() ==> (#[trigger] self.libraries[i]).id != (
            #[trigger] self.libraries[j]).id
        &&& forall|i: int|
            0 <= i < self.locations.len() ==> self.has_library(
                (#[trigger] self.locations[i]).library_id,
            )
    }

    /// The row that an insert of `library` creates.
    pub open spec fn new_row(self, library: InsertableLibraryView) -> LibraryRecord {
        LibraryRecord {
            id: self.next_id as i64,
            name: library.name,
            media_type: library.media_type.token(),
        }
    }

    /// These tables with one more library and the first `count` of its locations.
    pub open spec fn with_library_upto(self, library: InsertableLibraryView, count: int) -> Tables {
        Tables {
            libraries: self.libraries.push(self.new_row(library)),
            locations: self.locations + rows_for(
                self.next_id as i64,
                library.locations.take(count),
            ),
            next_id: self.next_id + 1,
        }
    }

    /// These tables with one more library, under the next id, and all of its
    /// locations.
    pub open spec fn with_library(self, library: InsertableLibraryView) -> Tables {
        self.with_library_upto(library, library.locations.len() as int)
    }

    /// These tables without the library `id` and without its locations.
    pub open spec fn without_library(self, id: i64) -> Tables {
        Tables {
            libraries: self.libraries.filter(lacks_id(id)),
            locations: self.locations.filter(not_bound_to(id)),
            next_id: self.next_id,
        }
    }
}

impl Database {
    /// A database without rows and without an open transaction.
    pub open spec fn empty() -> Database {
        Database { committed: Tables::empty(), pending: None }
    }

    /// Whether no transaction is open.
    pub open spec fn idle(self) -> bool {
        self.pending is None
    }

    /// Both the committed tables and the working copy keep the invariant, and
    /// the working copy is not behind the committed tables in assigning ids.
    pub open spec fn wf(self) -> bool {
        &&& self.committed.wf()
        &&& self.pending matches Some(tables) ==> tables.wf() && self.committed.next_id
            <= tables.next_id
    }

    /// The tables that a statement reads and writes.
    pub open spec fn current(self) -> Tables {
        match self.pending {
            Some(tables) => tables,
            None => self.committed,
        }
    }

    /// The database after a write has turned the current tables into `tables`.
    pub open spec fn with_current(self, tables: Tables) -> Database {
        match self.pending {
            Some(_) => Database { committed: self.committed, pending: Some(tables) },
            None => Database { committed: tables, pending: None },
        }
    }

    /// The database after the scope of an operation has ended: an open
    /// transaction is rolled back.
    pub open spec fn release(self) -> Database {
        Database { committed: self.committed, pending: None }
    }

    /// What a statement does to the tables it works on, and what it answers.
    pub open spec fn execute(tables: Tables, statement: StatementView) -> (Tables, ReplyView) {
        match statement {
            StatementView::SelectLibraries => (tables, ReplyView::Libraries(tables.libraries)),
            StatementView::SelectLibrary { id } => (
                tables,
                ReplyView::Libraries(tables.libraries_with(id)),
            ),
            StatementView::SelectLocations { library_id } => (
                tables,
                ReplyView::Locations(tables.locations_of(library_id)),
            ),
            StatementView::InsertLibrary { name, media_type } => {
                if tables.next_id > i64::MAX {
                    (tables, ReplyView::Failed)
                } else {
                    (
                        Tables {
                            libraries: tables.libraries.push(
                                LibraryRecord {
                                    id: tables.next_id as i64,
                                    name,
                                    media_type: media_type.token(),
                                },
                            ),
                            locations: tables.locations,
                            next_id: tables.next_id + 1,
                        },
                        ReplyView::Executed {
                            rows_affected: 1,
                            generated_id: Some(tables.next_id as i64),
                        },
                    )
                }
            },
            StatementView::InsertLocation { location, library_id } => {
                if tables.has_library(library_id) {
                    (
                        Tables {
                            libraries: tables.libraries,
                            locations: tables.locations.push(
                                LocationRecord { library_id, location },
                            ),
                            next_id: tables.next_id,
                        },
                        ReplyView::Executed { rows_affected: 1, generated_id: None },
                    )
                } else {
                    (tables, ReplyView::Failed)
                }
            },
            StatementView::DeleteLocations { library_id } => {
                let kept = tables.locations.filter(not_bound_to(library_id));
                (
                    Tables {
                        libraries: tables.libraries,
                        locations: kept,
                        next_id: tables.next_id,
                    },
                    ReplyView::Executed {
                        rows_affected: tables.locations.len() - kept.len(),
                        generated_id: None,
                    },
                )
            },
            StatementView::DeleteLibrary { id } => {
                if tables.has_locations(id) {
                    (tables, ReplyView::Failed)
                } else {
                    let kept = tables.libraries.filter(lacks_id(id));
                    (
                        Tables {
                            libraries: kept,
                            locations: tables.locations,
                            next_id: tables.next_id,
                        },
                        ReplyView::Executed {
                            rows_affected: tables.libraries.len() - kept.len(),
                            generated_id: None,
                        },
                    )
                }
            },
            StatementView::Begin | StatementView::Commit => (tables, ReplyView::Failed),
        }
    }

    /// The database after a statement, and the backend's reply to it.
    ///
    /// `Begin` fails while a transaction is open, `Commit` while none is. Every
    /// other statement works on the current tables; without a transaction its
    /// writes are committed at once.
    pub open spec fn respond(self, statement: StatementView) -> (Database, ReplyView) {
        match statement {
            StatementView::Begin => match self.pending {
                Some(_) => (self, ReplyView::Failed),
                None => (
                    Database { committed: self.committed, pending: Some(self.committed) },
                    ReplyView::Done,
                ),
            },
            StatementView::Commit => match self.pending {
                Some(tables) => (Database { committed: tables, pending: None }, ReplyView::Done),
                None => (self, ReplyView::Failed),
            },
            _ => {
                let (tables, reply) = Database::execute(self.current(), statement);
                (self.with_current(tables), reply)
            },
        }
    }
}

/// Filtering a sequence with one more element: the element is kept or not,
/// the rest is filtered as before.
pub proof fn filter_push<A>(rows: Seq<A>, row: A, keep: spec_fn(A) -> bool)
    ensures
        rows.push(row).filter(keep) == if keep(row) {
            rows.filter(keep).push(row)
        } else {
            rows.filter(keep)
        },
{
    reveal(Seq::filter);
    assert(rows.push(row).drop_last() == rows);
}

/// A filter that every element passes keeps the sequence.
pub proof fn filter_all<A>(rows: Seq<A>, keep: spec_fn(A) -> bool)
    requires
        forall|i: int| 0 <= i < rows.len() ==> keep(#[trigger] rows[i]),
    ensures
        rows.filter(keep) == rows,
    decreases rows.len(),
{
    reveal(Seq::filter);
    if rows.len() > 0 {
        filter_all(rows.drop_last(), keep);
        assert(rows.drop_last().push(rows.last()) == rows);
    }
}

/// A filter that no element passes leaves nothing.
pub proof fn filter_none<A>(rows: Seq<A>, keep: spec_fn(A) -> bool)
    requires
        forall|i: int| 0 <= i < rows.len() ==> !keep(#[trigger] rows[i]),
    ensures
        rows.filter(keep) == Seq::<A>::empty(),
    decreases rows.len(),
{
    reveal(Seq::filter);
    if rows.len() > 0 {
        filter_none(rows.drop_last(), keep);
    }
}

/// Filtering first by a wider condition does not change what a narrower one
/// keeps.
pub proof fn filter_twice<A>(rows: Seq<A>, wide: spec_fn(A) -> bool, narrow: spec_fn(A) -> bool)
    requires
        forall|row: A| #[trigger] narrow(row) ==> wide(row),
    ensures
        rows.filter(wide).filter(narrow) == rows.filter(narrow),
    decreases rows.len(),
{
    if rows.len() == 0 {
        reveal(Seq::filter);
    } else {
        let rest = rows.drop_last();
        let last = rows.last();
        assert(rest.push(last) == rows);
        filter_twice(rest, wide, narrow);
        filter_push(rest, last, wide);
        filter_push(rest, last, narrow);
        if wide(last) {
            filter_push(rest.filter(wide), last, narrow);
        }
    }
}

/// What a condition keeps and what it drops make up the sequence.
pub proof fn filter_splits<A>(rows: Seq<A>, keep: spec_fn(A) -> bool, drop: spec_fn(A) -> bool)
    requires
        forall|row: A| #[trigger] keep(row) != #[trigger] drop(row),
    ensures
        rows.filter(keep).len() + rows.filter(drop).len() == rows.len(),
    decreases rows.len(),
{
    if rows.len() == 0 {
        reveal(Seq::filter);
    } else {
        let rest = rows.drop_last();
        let last = rows.last();
        assert(rest.push(last) == rows);
        filter_splits(rest, keep, drop);
        filter_push(rest, last, keep);
        filter_push(rest, last, drop);
    }
}

impl Tables {
    /// The number of `library` rows with this id.
    pub open spec fn count(self, id: i64) -> int {
        if self.has_library(id) {
            1
        } else {
            0
        }
    }

    /// Ids are unique: a delete by id removes one row if the library exists,
    /// and none if it does not.
    pub proof fn delete_removes_at_most_one(self, id: i64)
        requires
            self.wf(),
        ensures
            self.libraries_with(id).len() == self.count(id),
            self.libraries.len() - self.libraries.filter(lacks_id(id)).len() == self.count(id),
            self.has_library(id) ==> self.libraries_with(id)[0].id == id,
    {
        self.unique_by_id(id, self.libraries.len() as int);
        assert(self.libraries.take(self.libraries.len() as int) == self.libraries);
        filter_splits(self.libraries, has_id(id), lacks_id(id));
        if self.has_library(id) {
            self.libraries.lemma_filter_pred(has_id(id), 0);
        }
    }

    /// Among the first `upto` rows of `library`, one has the id or none.
    proof fn unique_by_id(self, id: i64, upto: int)
        requires
            self.wf(),
            0 <= upto <= self.libraries.len(),
        ensures
            self.libraries.take(upto).filter(has_id(id)).len() == if exists|i: int|
                0 <= i < upto && #[trigger] self.libraries[i].id == id {
                1int
            } else {
                0int
            },
        decreases upto,
    {
        if upto == 0 {
            reveal(Seq::filter);
        } else {
            let rest = self.libraries.take(upto - 1);
            let last = self.libraries[upto - 1];
            assert(self.libraries.take(upto) == rest.push(last));
            filter_push(rest, last, has_id(id));
            self.unique_by_id(id, upto - 1);
            if last.id == id {
                assert(forall|i: int| 0 <= i < upto - 1 ==> self.libraries[i].id != id);
            }
        }
    }

    /// A library without a row has no locations either.
    pub proof fn absent_has_no_locations(self, id: i64)
        requires
            self.wf(),
            !self.has_library(id),
        ensures
            !self.has_locations(id),
            self.locations_of(id) == Seq::<Seq<char>>::empty(),
            self.without_library(id) == self,
    {
        filter_none(self.locations, bound_to(id));
        filter_all(self.locations, not_bound_to(id));
        filter_all(self.libraries, lacks_id(id));
    }

    /// Removing a library leaves neither its row nor any of its locations,
    /// keeps the invariant, and does not touch another library.
    pub proof fn without_library_removes(self, id: i64, other: i64)
        requires
            self.wf(),
        ensures
            self.without_library(id).wf(),
            !self.without_library(id).has_library(id),
            !self.without_library(id).has_locations(id),
            self.without_library(id).libraries_with(id) == Seq::<LibraryRecord>::empty(),
            self.without_library(id).locations_of(id) == Seq::<Seq<char>>::empty(),
            other != id ==> self.without_library(id).libraries_with(other) == self.libraries_with(
                other,
            ),
            other != id ==> self.without_library(id).locations_of(other) == self.locations_of(
                other,
            ),
            other != id ==> self.without_library(id).has_library(other) == self.has_library(other),
    {
        let after = self.without_library(id);
        self.kept_libraries_stay_distinct(id, self.libraries.len() as int);
        assert(self.libraries.take(self.libraries.len() as int) == self.libraries);
        assert forall|i: int| 0 <= i < after.libraries.len() implies (
        #[trigger] after.libraries[i]).id != id && self.has_library(after.libraries[i].id) by {
            let row = after.libraries[i];
            self.libraries.lemma_filter_pred(lacks_id(id), i);
            self.libraries.lemma_filter_contains_rev(lacks_id(id), row);
            let k = choose|k: int| 0 <= k < self.libraries.len() && self.libraries[k] == row;
            assert(self.libraries[k].id == row.id);
        }
        assert forall|i: int| 0 <= i < after.locations.len() implies (
        #[trigger] after.locations[i]).library_id != id && after.has_library(
            after.locations[i].library_id,
        ) by {
            let row = after.locations[i];
            self.locations.lemma_filter_pred(not_bound_to(id), i);
            self.locations.lemma_filter_contains_rev(not_bound_to(id), row);
            let k = choose|k: int| 0 <= k < self.locations.len() && self.locations[k] == row;
            let owner = self.locations[k].library_id;
            assert(self.has_library(owner));
            let j = choose|j: int|
                0 <= j < self.libraries.len() && self.libraries[j].id == owner;
            self.libraries.lemma_filter_contains(lacks_id(id), j);
            let m = choose|m: int|
                0 <= m < after.libraries.len() && after.libraries[m] == self.libraries[j];
            assert(after.libraries[m].id == owner);
        }
        filter_none(after.libraries, has_id(id));
        filter_none(after.locations, bound_to(id));
        if other != id {
            filter_twice(self.libraries, lacks_id(id), has_id(other));
            filter_twice(self.locations, not_bound_to(id), bound_to(other));
            if self.has_library(other) {
                let j = choose|j: int|
                    0 <= j < self.libraries.len() && self.libraries[j].id == other;
                self.libraries.lemma_filter_contains(lacks_id(id), j);
                let m = choose|m: int|
                    0 <= m < after.libraries.len() && after.libraries[m] == self.libraries[j];
                assert(after.libraries[m].id == other);
            }
        }
    }

    /// Among the first `upto` rows of `library`, those that a delete by id keeps
    /// are rows of the table, with ids in range and distinct.
    proof fn kept_libraries_stay_distinct(self, id: i64, upto: int)
        requires
            self.wf(),
            0 <= upto <= self.libraries.len(),
        ensures
            ({
                let kept = self.libraries.take(upto).filter(lacks_id(id));
                &&& forall|i: int|
                    0 <= i < kept.len() ==> exists|k: int|
                        0 <= k < upto && self.libraries[k] == #[trigger] kept[i]
                &&& forall|i: int, j: int|
                    0 <= i < j < kept.len() ==> (#[trigger] kept[i]).id != (#[trigger] kept[j]).id
                &&& forall|i: int|
                    0 <= i < kept.len() ==> 1 <= (#[trigger] kept[i]).id < self.next_id
            }),
        decreases upto,
    {
        if upto == 0 {
            reveal(Seq::filter);
        } else {
            let rest = self.libraries.take(upto - 1);
            let last = self.libraries[upto - 1];
            assert(self.libraries.take(upto) == rest.push(last));
            filter_push(rest, last, lacks_id(id));
            self.kept_libraries_stay_distinct(id, upto - 1);
            let before = rest.filter(lacks_id(id));
            let kept = self.libraries.take(upto).filter(lacks_id(id));
            assert forall|i: int| 0 <= i < kept.len() implies exists|k: int|
                0 <= k < upto && self.libraries[k] == #[trigger] kept[i] by {
                if i < before.len() {
                    let k = choose|k: int| 0 <= k < upto - 1 && self.libraries[k] == before[i];
                    assert(self.libraries[k] == kept[i]);
                } else {
                    assert(self.libraries[upto - 1] == kept[i]);
                }
            }
            assert forall|i: int, j: int| 0 <= i < j < kept.len() implies (#[trigger] kept[i]).id
                != (#[trigger] kept[j]).id by {
                if j >= before.len() {
                    let k = choose|k: int| 0 <= k < upto - 1 && self.libraries[k] == before[i];
                    assert(self.libraries[k].id != self.libraries[upto - 1].id);
                }
            }
        }
    }

    /// Adding a library under the next id keeps the invariant, makes its row
    /// the only one with that id and its paths the locations of that id, in
    /// order, and does not touch another library.
    pub proof fn with_library_adds(self, library: InsertableLibraryView, other: i64)
        requires
            self.wf(),
            self.next_id <= i64::MAX,
        ensures
            self.with_library(library).wf(),
            self.with_library(library).has_library(self.next_id as i64),
            self.with_library(library).libraries_with(self.next_id as i64) == seq![
                self.new_row(library),
            ],
            self.with_library(library).locations_of(self.next_id as i64) == library.locations,
            other != self.next_id ==> self.with_library(library).libraries_with(other)
                == self.libraries_with(other),
            other != self.next_id ==> self.with_library(library).locations_of(other)
                == self.locations_of(other),
            other != self.next_id ==> self.with_library(library).has_library(other)
                == self.has_library(other),
            !self.has_library(self.next_id as i64),
    {
        let id = self.next_id as i64;
        let after = self.with_library(library);
        let row = self.new_row(library);
        let added = rows_for(id, library.locations);
        assert(library.locations.take(library.locations.len() as int) == library.locations);
        assert(after.libraries[self.libraries.len() as int].id == id);
        assert(after.has_library(id));
        assert forall|i: int| 0 <= i < after.locations.len() implies after.has_library(
            (#[trigger] after.locations[i]).library_id,
        ) by {
            if i < self.locations.len() {
                let owner = self.locations[i].library_id;
                assert(self.has_library(owner));
                let j = choose|j: int|
                    0 <= j < self.libraries.len() && self.libraries[j].id == owner;
                assert(after.libraries[j].id == owner);
            }
        }
        // The rows of the new id.
        filter_push(self.libraries, row, has_id(id));
        filter_none(self.libraries, has_id(id));
        Seq::filter_distributes_over_add(self.locations, added, bound_to(id));
        assert forall|i: int| 0 <= i < self.locations.len() implies !bound_to(id)(
            #[trigger] self.locations[i],
        ) by {
            assert(self.has_library(self.locations[i].library_id));
        }
        filter_none(self.locations, bound_to(id));
        filter_all(added, bound_to(id));
        assert(Seq::<LocationRecord>::empty() + added == added);
        assert(added.map_values(|row: LocationRecord| row.location) == library.locations);
        // The rows of another id.
        if other != id {
            filter_push(self.libraries, row, has_id(other));
            Seq::filter_distributes_over_add(self.locations, added, bound_to(other));
            filter_none(added, bound_to(other));
            assert(self.locations.filter(bound_to(other)) + Seq::<LocationRecord>::empty()
                == self.locations.filter(bound_to(other)));
            if self.has_library(other) {
                let j = choose|j: int|
                    0 <= j < self.libraries.len() && self.libraries[j].id == other;
                assert(after.libraries[j].id == other);
            }
            if after.has_library(other) {
                let j = choose|j: int|
                    0 <= j < after.libraries.len() && after.libraries[j].id == other;
                assert(self.libraries[j].id == other);
            }
        }
    }
}

impl Database {
    /// A statement on tables that keep the invariant leaves tables that keep
    /// it, and does not take back an id.
    pub proof fn execute_keeps_invariant(tables: Tables, statement: StatementView)
        requires
            tables.wf(),
        ensures
            Database::execute(tables, statement).0.wf(),
            Database::execute(tables, statement).0.next_id >= tables.next_id,
    {
        let after = Database::execute(tables, statement).0;
        match statement {
            StatementView::InsertLibrary { name, media_type } => {
                if tables.next_id <= i64::MAX {
                    assert forall|i: int| 0 <= i < after.libraries.len() implies 1 <= (
                    #[trigger] after.libraries[i]).id < after.next_id by {
                        if i < tables.libraries.len() {
                            assert(after.libraries[i] == tables.libraries[i]);
                        }
                    }
                    assert forall|i: int, j: int| 0 <= i < j < after.libraries.len() implies (
                    #[trigger] after.libraries[i]).id != (#[trigger] after.libraries[j]).id by {
                        assert(after.libraries[i] == tables.libraries[i]);
                        if j < tables.libraries.len() {
                            assert(after.libraries[j] == tables.libraries[j]);
                        }
                    }
                    assert forall|i: int| 0 <= i < after.locations.len() implies after.has_library(
                        (#[trigger] after.locations[i]).library_id,
                    ) by {
                        let owner = tables.locations[i].library_id;
                        assert(tables.has_library(owner));
                        let j = choose|j: int|
                            0 <= j < tables.libraries.len() && tables.libraries[j].id == owner;
                        assert(after.libraries[j].id == owner);
                    }
                }
            },
            StatementView::InsertLocation { location, library_id } => {
                if tables.has_library(library_id) {
                    assert forall|i: int| 0 <= i < after.locations.len() implies after.has_library(
                        (#[trigger] after.locations[i]).library_id,
                    ) by {
                        let owner = after.locations[i].library_id;
                        if i < tables.locations.len() {
                            assert(after.locations[i] == tables.locations[i]);
                        }
                        assert(tables.has_library(owner));
                        let j = choose|j: int|
                            0 <= j < tables.libraries.len() && tables.libraries[j].id == owner;
                        assert(after.libraries[j].id == owner);
                    }
                }
            },
            StatementView::DeleteLocations { library_id } => {
                assert forall|i: int| 0 <= i < after.locations.len() implies after.has_library(
                    (#[trigger] after.locations[i]).library_id,
                ) by {
                    tables.locations.lemma_filter_contains_rev(
                        not_bound_to(library_id),
                        after.locations[i],
                    );
                    let k = choose|k: int|
                        0 <= k < tables.locations.len() && tables.locations[k]
                            == after.locations[i];
                    let owner = tables.locations[k].library_id;
                    assert(tables.has_library(owner));
                    let j = choose|j: int|
                        0 <= j < tables.libraries.len() && tables.libraries[j].id == owner;
                    assert(after.libraries[j].id == owner);
                }
            },
            StatementView::DeleteLibrary { id } => {
                if !tables.has_locations(id) {
                    filter_all(tables.locations, not_bound_to(id));
                    assert(after == tables.without_library(id));
                    tables.without_library_removes(id, id);
                }
            },
            _ => {},
        }
    }

    /// Every statement keeps the invariant of the database: ids stay unique
    /// and below the next to be assigned, and no location is without its
    /// library. The next id to be assigned never goes down, so an id that
    /// was committed once is not assigned again.
    pub proof fn respond_keeps_invariant(self, statement: StatementView)
        requires
            self.wf(),
        ensures
            self.respond(statement).0.wf(),
            self.respond(statement).0.committed.next_id >= self.committed.next_id,
    {
        Database::execute_keeps_invariant(self.current(), statement);
    }
}

} // verus!
