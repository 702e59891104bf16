//! What holds of every run of a catalog operation against the reference
//! semantics, whichever statements the backend fails.
use crate::error::DatabaseError;
use crate::media_type::decode_inverts_encode;
use crate::library::{
    delete_step, get_all_step, get_locations_step, get_one_step, DeleteState, FetchState,
    GetOneStateView, InsertState, InsertableLibraryView, LibraryView,
};
use crate::model::{
    filter_all, filter_none, filter_push, lacks_id, not_bound_to, rows_for, Database,
    LocationRecord, Tables,
};
use crate::protocol::{ReplyView, StatementView, StepView};
use vstd::prelude::*;

verus! {

/// Runs an operation to its end against the reference semantics.
///
/// `step` is the operation, `state` and `reply` are what it is resumed with.
/// The statements of the run are counted from `issued`; those whose number is
/// in `faults` fail and do nothing. When the operation finishes, the scope of
/// its transaction is released. The result is the database after the run and
/// what the operation returned, or `None` where it issues more than `fuel`
/// statements.
pub open spec fn run<S, T>(
    step: spec_fn(S, Option<ReplyView>) -> StepView<S, T>,
    state: S,
    reply: Option<ReplyView>,
    database: Database,
    faults: Set<nat>,
    issued: nat,
    fuel: nat,
) -> Option<(Database, T)>
    decreases fuel,
{
    match step(state, reply) {
        StepView::Finish(result) => Some((database.release(), result)),
        StepView::Issue(next, statement) => {
            if fuel == 0 {
                None
            } else {
                let (after, answer) = if faults.contains(issued) {
                    (database, ReplyView::Failed)
                } else {
                    database.respond(statement)
                };
                run(step, next, Some(answer), after, faults, issued + 1, (fuel - 1) as nat)
            }
        },
    }
}

/// No run breaks the database. Whatever the operation, its statements and
/// the failures among them: a run that starts on a database that keeps its
/// invariant ends on one that keeps it, with no transaction left open. So ids
/// stay unique and no location is ever without its library. Nor does a run
/// take back an id: all ids in the tables are below the next to be assigned,
/// and that never goes down.
pub proof fn run_keeps_invariant<S, T>(
    step: spec_fn(S, Option<ReplyView>) -> StepView<S, T>,
    state: S,
    reply: Option<ReplyView>,
    database: Database,
    faults: Set<nat>,
    issued: nat,
    fuel: nat,
)
    requires
        database.wf(),
    ensures
        run(step, state, reply, database, faults, issued, fuel) matches Some((after, _))
            ==> after.wf() && after.idle() && after.committed.next_id
            >= database.committed.next_id,
    decreases fuel,
{
    if let StepView::Issue(next, statement) = step(state, reply) {
        if fuel > 0 {
            let (after, answer) = if faults.contains(issued) {
                (database, ReplyView::Failed)
            } else {
                database.respond(statement)
            };
            database.respond_keeps_invariant(statement);
            run_keeps_invariant(
                step,
                next,
                Some(answer),
                after,
                faults,
                issued + 1,
                (fuel - 1) as nat,
            );
        }
    }
}

/// Whether none of the `count` statements from number `from` on fails.
pub open spec fn fault_free(faults: Set<nat>, from: nat, count: nat) -> bool {
    forall|k: nat| from <= k < from + count ==> !faults.contains(k)
}

/// The insert of `library` as an operation to run.
pub open spec fn insert_of(library: InsertableLibraryView) -> spec_fn(
    InsertState,
    Option<ReplyView>,
) -> StepView<InsertState, Result<i64, DatabaseError>> {
    |state: InsertState, reply: Option<ReplyView>| library.insert_step(state, reply)
}

/// The number of statements of a complete insert: begin, the library row, one
/// per location, commit.
pub open spec fn insert_length(library: InsertableLibraryView) -> nat {
    library.locations.len() + 3
}

/// What an insert of `library` into an idle database comes to.
pub open spec fn insert_outcome(
    library: InsertableLibraryView,
    database: Database,
    faults: Set<nat>,
) -> Option<(Database, Result<i64, DatabaseError>)> {
    run(
        insert_of(library),
        InsertState::Start,
        None,
        database,
        faults,
        0,
        insert_length(library),
    )
}

/// The part of an insert that follows the library row: with `sent` locations
/// written into the open transaction, the rest either all follow and are
/// committed, or the transaction is dropped.
proof fn insert_finishes(
    library: InsertableLibraryView,
    base: Tables,
    sent: usize,
    state: InsertState,
    reply: Option<ReplyView>,
    faults: Set<nat>,
    issued: nat,
    fuel: nat,
)
    requires
        1 <= base.next_id <= i64::MAX,
        library.locations.len() <= usize::MAX,
        sent <= library.locations.len(),
        fuel >= library.locations.len() - sent + 1,
        library.insert_step(state, reply) == library.continue_insert(base.next_id as i64, sent),
    ensures
        run(
            insert_of(library),
            state,
            reply,
            Database {
                committed: base,
                pending: Some(base.with_library_upto(library, sent as int)),
            },
            faults,
            issued,
            fuel,
        ) == if fault_free(faults, issued, (library.locations.len() - sent + 1) as nat) {
            Some(
                (
                    Database { committed: base.with_library(library), pending: None },
                    Ok::<i64, DatabaseError>(base.next_id as i64),
                ),
            )
        } else {
            Some(
                (
                    Database { committed: base, pending: None },
                    Err::<i64, DatabaseError>(DatabaseError::StorageError),
                ),
            )
        },
    decreases library.locations.len() - sent,
{
    let id = base.next_id as i64;
    let working = base.with_library_upto(library, sent as int);
    let database = Database { committed: base, pending: Some(working) };
    let left = (library.locations.len() - sent + 1) as nat;
    let step = insert_of(library);
    if sent < library.locations.len() {
        let next = InsertState::InsertingLocations { lib_id: id, sent: (sent + 1) as usize };
        if faults.contains(issued) {
            assert(!fault_free(faults, issued, left));
            assert(run(
                step,
                next,
                Some(ReplyView::Failed),
                database,
                faults,
                issued + 1,
                (fuel - 1) as nat,
            ) == Some(
                (database.release(), Err::<i64, DatabaseError>(DatabaseError::StorageError)),
            ));
        } else {
            let row = LocationRecord { library_id: id, location: library.locations[sent as int] };
            assert(working.libraries.last().id == id);
            assert(working.has_library(id));
            assert(library.locations.take(sent + 1) == library.locations.take(sent as int).push(
                library.locations[sent as int],
            ));
            assert(rows_for(id, library.locations.take(sent + 1)) == rows_for(
                id,
                library.locations.take(sent as int),
            ).push(row));
            assert(working.locations.push(row) == base.with_library_upto(
                library,
                sent + 1,
            ).locations);
            let answer = ReplyView::Executed { rows_affected: 1, generated_id: None };
            insert_finishes(
                library,
                base,
                (sent + 1) as usize,
                next,
                Some(answer),
                faults,
                issued + 1,
                (fuel - 1) as nat,
            );
            assert(fault_free(faults, issued, left) == fault_free(
                faults,
                issued + 1,
                (left - 1) as nat,
            ));
            assert(database.respond(
                StatementView::InsertLocation {
                    location: library.locations[sent as int],
                    library_id: id,
                },
            ) == (
                Database {
                    committed: base,
                    pending: Some(base.with_library_upto(library, sent + 1)),
                },
                answer,
            ));
        }
    } else {
        let next = InsertState::Committing { lib_id: id };
        assert(working == base.with_library(library));
        if faults.contains(issued) {
            assert(!fault_free(faults, issued, left));
            assert(run(
                step,
                next,
                Some(ReplyView::Failed),
                database,
                faults,
                issued + 1,
                (fuel - 1) as nat,
            ) == Some(
                (database.release(), Err::<i64, DatabaseError>(DatabaseError::StorageError)),
            ));
        } else {
            assert(fault_free(faults, issued, left));
            assert(run(
                step,
                next,
                Some(ReplyView::Done),
                Database { committed: working, pending: None },
                faults,
                issued + 1,
                (fuel - 1) as nat,
            ) == Some(
                (Database { committed: working, pending: None }, Ok::<i64, DatabaseError>(id)),
            ));
        }
    }
}

/// An insert is all or nothing. Run on an idle database, it ends within its
/// length in statements. If no statement failed and an id was left to assign,
/// it returns the next id, and the committed tables have gained the library
/// row under that id and one location row for each path, in order. Otherwise
/// it returns a storage error and the database is as it was. Either way no
/// transaction is left open.
pub proof fn insert_is_atomic(
    library: InsertableLibraryView,
    database: Database,
    faults: Set<nat>,
)
    requires
        database.idle(),
        database.wf(),
        library.locations.len() <= usize::MAX,
    ensures
        insert_outcome(library, database, faults) == if fault_free(
            faults,
            0,
            insert_length(library),
        ) && database.committed.next_id <= i64::MAX {
            Some(
                (
                    Database {
                        committed: database.committed.with_library(library),
                        pending: None,
                    },
                    Ok::<i64, DatabaseError>(database.committed.next_id as i64),
                ),
            )
        } else {
            Some((database, Err::<i64, DatabaseError>(DatabaseError::StorageError)))
        },
{
    let base = database.committed;
    let step = insert_of(library);
    let length = insert_length(library);
    let opened = Database { committed: base, pending: Some(base) };
    let working = base.with_library_upto(library, 0);
    let failed = Some((database, Err::<i64, DatabaseError>(DatabaseError::StorageError)));
    assert(step(InsertState::Start, None) == StepView::<
        InsertState,
        Result<i64, DatabaseError>,
    >::Issue(InsertState::Beginning, StatementView::Begin));
    if faults.contains(0) {
        assert(!fault_free(faults, 0, length));
        assert(run(
            step,
            InsertState::Beginning,
            Some(ReplyView::Failed),
            database,
            faults,
            1,
            (length - 1) as nat,
        ) == failed);
    } else if faults.contains(1) || base.next_id > i64::MAX {
        if faults.contains(1) {
            assert(!fault_free(faults, 0, length));
        }
        assert(run(
            step,
            InsertState::InsertingLibrary,
            Some(ReplyView::Failed),
            opened,
            faults,
            2,
            (length - 2) as nat,
        ) == failed);
        assert(run(
            step,
            InsertState::Beginning,
            Some(ReplyView::Done),
            opened,
            faults,
            1,
            (length - 1) as nat,
        ) == failed);
    } else {
        let answer = ReplyView::Executed {
            rows_affected: 1,
            generated_id: Some(base.next_id as i64),
        };
        assert(library.locations.take(0) == Seq::<Seq<char>>::empty());
        assert(working.locations == base.locations);
        assert(opened.respond(
            StatementView::InsertLibrary { name: library.name, media_type: library.media_type },
        ) == (Database { committed: base, pending: Some(working) }, answer));
        insert_finishes(
            library,
            base,
            0,
            InsertState::InsertingLibrary,
            Some(answer),
            faults,
            2,
            (length - 2) as nat,
        );
        assert(fault_free(faults, 0, length) == fault_free(faults, 2, (length - 2) as nat));
        assert(run(
            step,
            InsertState::Beginning,
            Some(ReplyView::Done),
            opened,
            faults,
            1,
            (length - 1) as nat,
        ) == run(
            step,
            InsertState::InsertingLibrary,
            Some(answer),
            Database { committed: base, pending: Some(working) },
            faults,
            2,
            (length - 2) as nat,
        ));
    }
}

/// The listing as an operation to run.
pub open spec fn listing_op() -> spec_fn(FetchState, Option<ReplyView>) -> StepView<
    FetchState,
    Seq<LibraryView>,
> {
    |state: FetchState, reply: Option<ReplyView>| get_all_step(state, reply)
}

/// What a listing comes to.
pub open spec fn get_all_outcome(database: Database, faults: Set<nat>) -> Option<
    (Database, Seq<LibraryView>),
> {
    run(listing_op(), FetchState::Start, None, database, faults, 0, 1)
}

/// A listing never fails. It issues one statement and returns the committed
/// libraries in the backend's order, each without locations; if the
/// statement fails, it returns the empty list. The database is as it was.
pub proof fn get_all_degrades_to_empty(database: Database, faults: Set<nat>)
    requires
        database.idle(),
    ensures
        get_all_outcome(database, faults) == Some(
            (
                database,
                if faults.contains(0) {
                    Seq::<LibraryView>::empty()
                } else {
                    LibraryView::listing(database.committed.libraries)
                },
            ),
        ),
{
    let step = listing_op();
    let answer = if faults.contains(0) {
        ReplyView::Failed
    } else {
        ReplyView::Libraries(database.committed.libraries)
    };
    assert(run(step, FetchState::Fetching, Some(answer), database, faults, 1, 0) == Some(
        (
            database,
            if faults.contains(0) {
                Seq::<LibraryView>::empty()
            } else {
                LibraryView::listing(database.committed.libraries)
            },
        ),
    ));
}

/// The fetch of the locations of library `id` as an operation to run.
pub open spec fn locations_op(id: i64) -> spec_fn(FetchState, Option<ReplyView>) -> StepView<
    FetchState,
    Result<Seq<Seq<char>>, DatabaseError>,
> {
    |state: FetchState, reply: Option<ReplyView>| get_locations_step(id, state, reply)
}

/// What a fetch of the locations of library `id` comes to.
pub open spec fn get_locations_outcome(id: i64, database: Database, faults: Set<nat>) -> Option<
    (Database, Result<Seq<Seq<char>>, DatabaseError>),
> {
    run(locations_op(id), FetchState::Start, None, database, faults, 0, 1)
}

/// A fetch of locations issues one statement and returns the paths committed
/// under the id, oldest first; if the statement fails, a storage error. The
/// database is as it was.
pub proof fn get_locations_reads_committed(id: i64, database: Database, faults: Set<nat>)
    requires
        database.idle(),
    ensures
        get_locations_outcome(id, database, faults) == Some(
            (
                database,
                if faults.contains(0) {
                    Err::<Seq<Seq<char>>, DatabaseError>(DatabaseError::StorageError)
                } else {
                    Ok(database.committed.locations_of(id))
                },
            ),
        ),
{
    let step = locations_op(id);
    let answer = if faults.contains(0) {
        ReplyView::Failed
    } else {
        ReplyView::Locations(database.committed.locations_of(id))
    };
    assert(run(step, FetchState::Fetching, Some(answer), database, faults, 1, 0) == Some(
        (
            database,
            if faults.contains(0) {
                Err::<Seq<Seq<char>>, DatabaseError>(DatabaseError::StorageError)
            } else {
                Ok(database.committed.locations_of(id))
            },
        ),
    ));
}

/// The lookup of library `id` as an operation to run.
pub open spec fn lookup_op(id: i64) -> spec_fn(GetOneStateView, Option<ReplyView>) -> StepView<
    GetOneStateView,
    Result<LibraryView, DatabaseError>,
> {
    |state: GetOneStateView, reply: Option<ReplyView>| get_one_step(id, state, reply)
}

/// What a lookup of library `id` comes to.
pub open spec fn get_one_outcome(id: i64, database: Database, faults: Set<nat>) -> Option<
    (Database, Result<LibraryView, DatabaseError>),
> {
    run(lookup_op(id), GetOneStateView::Start, None, database, faults, 0, 3)
}

/// What a lookup of library `id` returns from the given tables, if the
/// statements numbered in `faults` fail.
pub open spec fn lookup(tables: Tables, id: i64, faults: Set<nat>) -> Result<
    LibraryView,
    DatabaseError,
> {
    let found = tables.libraries_with(id);
    if faults.contains(0) || faults.contains(1) {
        Err(DatabaseError::StorageError)
    } else if found.len() == 0 {
        Err(DatabaseError::NotFound)
    } else {
        match LibraryView::from_record(found[0]) {
            None => Err(DatabaseError::DecodeError),
            Some(library) => if faults.contains(2) {
                Err(DatabaseError::StorageError)
            } else {
                Ok(library.with_locations(tables.locations_of(id)))
            },
        }
    }
}

/// A lookup is consistent. It reads the library row and the locations from
/// the same committed tables: the library it returns has exactly the paths
/// committed under its id. It is `NotFound` exactly when no row has the id,
/// and the database is as it was.
pub proof fn get_one_is_consistent(id: i64, database: Database, faults: Set<nat>)
    requires
        database.idle(),
    ensures
        get_one_outcome(id, database, faults) == Some(
            (database, lookup(database.committed, id, faults)),
        ),
{
    let base = database.committed;
    let step = lookup_op(id);
    let opened = Database { committed: base, pending: Some(base) };
    let found = base.libraries_with(id);
    let expected = Some((database, lookup(base, id, faults)));
    if faults.contains(0) {
        assert(run(
            step,
            GetOneStateView::Beginning,
            Some(ReplyView::Failed),
            database,
            faults,
            1,
            2,
        ) == expected);
    } else {
        if faults.contains(1) {
            assert(run(
                step,
                GetOneStateView::FetchingLibrary,
                Some(ReplyView::Failed),
                opened,
                faults,
                2,
                1,
            ) == expected);
        } else {
            if found.len() > 0 {
                if let Some(library) = LibraryView::from_record(found[0]) {
                    let answer = if faults.contains(2) {
                        ReplyView::Failed
                    } else {
                        ReplyView::Locations(base.locations_of(id))
                    };
                    assert(run(
                        step,
                        GetOneStateView::FetchingLocations { library },
                        Some(answer),
                        opened,
                        faults,
                        3,
                        0,
                    ) == expected);
                }
            }
            assert(run(
                step,
                GetOneStateView::FetchingLibrary,
                Some(ReplyView::Libraries(found)),
                opened,
                faults,
                2,
                1,
            ) == expected);
        }
        assert(run(
            step,
            GetOneStateView::Beginning,
            Some(ReplyView::Done),
            opened,
            faults,
            1,
            2,
        ) == expected);
    }
}

/// The delete of library `id` as an operation to run.
pub open spec fn delete_op(id: i64) -> spec_fn(DeleteState, Option<ReplyView>) -> StepView<
    DeleteState,
    Result<usize, DatabaseError>,
> {
    |state: DeleteState, reply: Option<ReplyView>| delete_step(id, state, reply)
}

/// What a delete of library `id` comes to.
pub open spec fn delete_outcome(id: i64, database: Database, faults: Set<nat>) -> Option<
    (Database, Result<usize, DatabaseError>),
> {
    run(delete_op(id), DeleteState::Start, None, database, faults, 0, 4)
}

/// A delete is all or nothing, and it cascades. Run on an idle database, it
/// issues four statements. If none failed, the committed tables have lost the
/// library row and every location row of that id, and the delete returns the
/// number of library rows removed: one if the library existed, none if not.
/// If a statement failed, it returns a storage error and the database is as
/// it was. Either way no transaction is left open.
pub proof fn delete_is_atomic(id: i64, database: Database, faults: Set<nat>)
    requires
        database.idle(),
        database.wf(),
    ensures
        delete_outcome(id, database, faults) == if fault_free(faults, 0, 4) {
            Some(
                (
                    Database { committed: database.committed.without_library(id), pending: None },
                    Ok::<usize, DatabaseError>(database.committed.count(id) as usize),
                ),
            )
        } else {
            Some((database, Err::<usize, DatabaseError>(DatabaseError::StorageError)))
        },
{
    let base = database.committed;
    let step = delete_op(id);
    let opened = Database { committed: base, pending: Some(base) };
    let kept = base.locations.filter(not_bound_to(id));
    let emptied = Tables { libraries: base.libraries, locations: kept, next_id: base.next_id };
    let after = base.without_library(id);
    let failed = Some((database, Err::<usize, DatabaseError>(DatabaseError::StorageError)));
    let expected = if fault_free(faults, 0, 4) {
        Some(
            (
                Database { committed: after, pending: None },
                Ok::<usize, DatabaseError>(base.count(id) as usize),
            ),
        )
    } else {
        failed
    };
    base.delete_removes_at_most_one(id);
    let removed = base.libraries.len() - after.libraries.len();
    assert(!emptied.has_locations(id)) by {
        if emptied.has_locations(id) {
            let i = choose|i: int| 0 <= i < kept.len() && kept[i].library_id == id;
            base.locations.lemma_filter_pred(not_bound_to(id), i);
        }
    }
    if faults.contains(0) {
        assert(!fault_free(faults, 0, 4));
        assert(run(step, DeleteState::Beginning, Some(ReplyView::Failed), database, faults, 1, 3)
            == expected);
    } else {
        if faults.contains(1) {
            assert(!fault_free(faults, 0, 4));
            assert(run(
                step,
                DeleteState::DeletingLocations,
                Some(ReplyView::Failed),
                opened,
                faults,
                2,
                2,
            ) == expected);
        } else {
            let cleared = Database { committed: base, pending: Some(emptied) };
            let first = ReplyView::Executed {
                rows_affected: base.locations.len() - kept.len(),
                generated_id: None,
            };
            assert(opened.respond(StatementView::DeleteLocations { library_id: id }) == (
                cleared,
                first,
            ));
            if faults.contains(2) {
                assert(!fault_free(faults, 0, 4));
                assert(run(
                    step,
                    DeleteState::DeletingLibrary,
                    Some(ReplyView::Failed),
                    cleared,
                    faults,
                    3,
                    1,
                ) == expected);
            } else {
                let removing = Database { committed: base, pending: Some(after) };
                let second = ReplyView::Executed { rows_affected: removed, generated_id: None };
                assert(cleared.respond(StatementView::DeleteLibrary { id }) == (
                    removing,
                    second,
                ));
                let waiting = DeleteState::Committing { removed: removed as usize };
                if faults.contains(3) {
                    assert(!fault_free(faults, 0, 4));
                    assert(run(step, waiting, Some(ReplyView::Failed), removing, faults, 4, 0)
                        == expected);
                } else {
                    assert(fault_free(faults, 0, 4));
                    assert(run(
                        step,
                        waiting,
                        Some(ReplyView::Done),
                        Database { committed: after, pending: None },
                        faults,
                        4,
                        0,
                    ) == expected);
                }
                assert(run(
                    step,
                    DeleteState::DeletingLibrary,
                    Some(second),
                    removing,
                    faults,
                    3,
                    1,
                ) == expected);
            }
            assert(run(step, DeleteState::DeletingLocations, Some(first), cleared, faults, 2, 2)
                == expected);
        }
        assert(run(step, DeleteState::Beginning, Some(ReplyView::Done), opened, faults, 1, 3)
            == expected);
    }
}

/// What was inserted is what is read back. After an insert without failures
/// the database keeps its invariant, and a lookup under the id that the
/// insert returned gives the library as it was handed in, with exactly its
/// paths; so does a fetch of the locations of that id.
pub proof fn inserted_library_is_found(library: InsertableLibraryView, database: Database)
    requires
        database.idle(),
        database.wf(),
        database.committed.next_id <= i64::MAX,
        library.locations.len() <= usize::MAX,
    ensures
        ({
            let id = database.committed.next_id as i64;
            let after = Database {
                committed: database.committed.with_library(library),
                pending: None,
            };
            &&& insert_outcome(library, database, Set::empty()) == Some(
                (after, Ok::<i64, DatabaseError>(id)),
            )
            &&& after.wf()
            &&& get_one_outcome(id, after, Set::empty()) == Some(
                (
                    after,
                    Ok::<LibraryView, DatabaseError>(
                        LibraryView {
                            id,
                            name: library.name,
                            locations: library.locations,
                            media_type: library.media_type,
                        },
                    ),
                ),
            )
            &&& get_locations_outcome(id, after, Set::empty()) == Some(
                (after, Ok::<Seq<Seq<char>>, DatabaseError>(library.locations)),
            )
        }),
{
    let id = database.committed.next_id as i64;
    let after = Database { committed: database.committed.with_library(library), pending: None };
    insert_is_atomic(library, database, Set::empty());
    database.committed.with_library_adds(library, id);
    decode_inverts_encode(library.media_type);
    get_one_is_consistent(id, after, Set::empty());
    get_locations_reads_committed(id, after, Set::empty());
}

/// A delete cascades. After a delete without failures the database keeps its
/// invariant, no library row has the id and no location row refers to it: a
/// lookup is `NotFound`, a fetch of its locations is empty, and a second
/// delete removes nothing and is no error.
pub proof fn deleted_library_is_gone(id: i64, database: Database)
    requires
        database.idle(),
        database.wf(),
    ensures
        ({
            let after = Database {
                committed: database.committed.without_library(id),
                pending: None,
            };
            &&& delete_outcome(id, database, Set::empty()) == Some(
                (after, Ok::<usize, DatabaseError>(database.committed.count(id) as usize)),
            )
            &&& after.wf()
            &&& !after.committed.has_library(id)
            &&& !after.committed.has_locations(id)
            &&& get_one_outcome(id, after, Set::empty()) == Some(
                (after, Err::<LibraryView, DatabaseError>(DatabaseError::NotFound)),
            )
            &&& get_locations_outcome(id, after, Set::empty()) == Some(
                (after, Ok::<Seq<Seq<char>>, DatabaseError>(Seq::empty())),
            )
            &&& delete_outcome(id, after, Set::empty()) == Some(
                (after, Ok::<usize, DatabaseError>(0)),
            )
        }),
{
    let after = Database { committed: database.committed.without_library(id), pending: None };
    delete_is_atomic(id, database, Set::empty());
    database.committed.without_library_removes(id, id);
    get_one_is_consistent(id, after, Set::empty());
    get_locations_reads_committed(id, after, Set::empty());
    delete_of_absent_changes_nothing(id, after);
}

/// Deleting a library that does not exist removes nothing, changes nothing
/// and is no error.
pub proof fn delete_of_absent_changes_nothing(id: i64, database: Database)
    requires
        database.idle(),
        database.wf(),
        !database.committed.has_library(id),
    ensures
        delete_outcome(id, database, Set::empty()) == Some(
            (database, Ok::<usize, DatabaseError>(0)),
        ),
{
    delete_is_atomic(id, database, Set::empty());
    database.committed.absent_has_no_locations(id);
}

/// Deleting a library right after its insert removes one library row and
/// leaves the rows that were there before the insert, and no others. The id
/// is not handed out again.
pub proof fn delete_undoes_insert(library: InsertableLibraryView, database: Database)
    requires
        database.idle(),
        database.wf(),
        database.committed.next_id <= i64::MAX,
        library.locations.len() <= usize::MAX,
    ensures
        ({
            let id = database.committed.next_id as i64;
            let inserted = Database {
                committed: database.committed.with_library(library),
                pending: None,
            };
            &&& insert_outcome(library, database, Set::empty()) == Some(
                (inserted, Ok::<i64, DatabaseError>(id)),
            )
            &&& delete_outcome(id, inserted, Set::empty()) == Some(
                (
                    Database {
                        committed: Tables {
                            libraries: database.committed.libraries,
                            locations: database.committed.locations,
                            next_id: database.committed.next_id + 1,
                        },
                        pending: None,
                    },
                    Ok::<usize, DatabaseError>(1),
                ),
            )
        }),
{
    let base = database.committed;
    let id = base.next_id as i64;
    let inserted = Database { committed: base.with_library(library), pending: None };
    let added = rows_for(id, library.locations);
    insert_is_atomic(library, database, Set::empty());
    base.with_library_adds(library, id);
    delete_is_atomic(id, inserted, Set::empty());
    assert(library.locations.take(library.locations.len() as int) == library.locations);
    filter_push(base.libraries, base.new_row(library), lacks_id(id));
    filter_all(base.libraries, lacks_id(id));
    Seq::filter_distributes_over_add(base.locations, added, not_bound_to(id));
    assert forall|i: int| 0 <= i < base.locations.len() implies not_bound_to(id)(
        #[trigger] base.locations[i],
    ) by {
        assert(base.has_library(base.locations[i].library_id));
    }
    filter_all(base.locations, not_bound_to(id));
    filter_none(added, not_bound_to(id));
    assert(base.locations + Seq::<LocationRecord>::empty() == base.locations);
}

/// An insert and a delete touch one library. Whatever a lookup of another id
/// returned before, it returns after.
pub proof fn other_libraries_are_untouched(
    library: InsertableLibraryView,
    tables: Tables,
    id: i64,
    other: i64,
    faults: Set<nat>,
)
    requires
        tables.wf(),
        tables.next_id <= i64::MAX,
    ensures
        other != tables.next_id ==> lookup(tables.with_library(library), other, faults) == lookup(
            tables,
            other,
            faults,
        ),
        other != id ==> lookup(tables.without_library(id), other, faults) == lookup(
            tables,
            other,
            faults,
        ),
{
    tables.with_library_adds(library, other);
    tables.without_library_removes(id, other);
}

} // verus!
