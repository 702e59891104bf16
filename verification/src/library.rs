//! Libraries and the five operations of the catalog.
//!
//! Each operation is a function from the state it waits in and the backend's
//! reply to its next [`Step`]. It starts in its `Start` state, where nothing
//! has been issued and the reply is not read. A reply of the wrong kind, or
//! none where one was due, counts as a failure of the backend.
use crate::error::DatabaseError;
use crate::media_type::MediaType;
use crate::protocol::{
    LibraryRecord, LibraryRow, Reply, ReplyView, Statement, StatementView, Step,
    StepView,
};
use vstd::prelude::*;

verus! {

/// A library as the catalog hands it out.
#[derive(Clone, Debug, PartialEq, Eq)]
pub struct Library {
    /// The id that the store assigned.
    pub id: i64,
    pub name: String,
    /// The filesystem paths that hold the library's media.
    pub locations: Vec<String>,
    pub media_type: MediaType,
}

/// The mathematical content of a [`Library`].
pub struct LibraryView {
    pub id: i64,
    pub name: Seq<char>,
    pub locations: Seq<Seq<char>>,
    pub media_type: MediaType,
}

impl View for Library {
    type V = LibraryView;

    open spec fn view(&self) -> LibraryView {
        LibraryView {
            id: self.id,
            name: self.name@,
            locations: self.locations.deep_view(),
            media_type: self.media_type,
        }
    }
}

impl DeepView for Library {
    type V = LibraryView;

    open spec fn deep_view(&self) -> LibraryView {
        self@
    }
}

impl LibraryView {
    /// The library that a row of the `library` table describes, its locations
    /// left empty, if the row's media type is a known token.
    pub open spec fn from_record(record: LibraryRecord) -> Option<LibraryView> {
        match MediaType::parse(record.media_type) {
            Some(media_type) => Some(
                LibraryView {
                    id: record.id,
                    name: record.name,
                    locations: Seq::empty(),
                    media_type,
                },
            ),
            None => None,
        }
    }

    /// This library with the given locations.
    pub open spec fn with_locations(self, locations: Seq<Seq<char>>) -> LibraryView {
        LibraryView { id: self.id, name: self.name, locations, media_type: self.media_type }
    }

    /// Whether every row has a known media type.
    pub open spec fn all_decode(records: Seq<LibraryRecord>) -> bool {
        forall|i: int|
            0 <= i < records.len() ==> LibraryView::from_record(#[trigger] records[i]) is Some
    }

    /// The libraries that a listing returns for the rows fetched: one per row,
    /// in the rows' order and without locations; none at all if a row does
    /// not decode.
    pub open spec fn listing(records: Seq<LibraryRecord>) -> Seq<LibraryView> {
        if LibraryView::all_decode(records) {
            Seq::new(records.len(), |i: int| LibraryView::from_record(records[i])->Some_0)
        } else {
            Seq::empty()
        }
    }
}

/// A library that is yet to be created: a [`Library`] without an id.
#[derive(Clone, Debug, PartialEq, Eq)]
pub struct InsertableLibrary {
    pub name: String,
    pub locations: Vec<String>,
    pub media_type: MediaType,
}

/// The mathematical content of an [`InsertableLibrary`].
pub struct InsertableLibraryView {
    pub name: Seq<char>,
    pub locations: Seq<Seq<char>>,
    pub media_type: MediaType,
}

impl View for InsertableLibrary {
    type V = InsertableLibraryView;

    open spec fn view(&self) -> InsertableLibraryView {
        InsertableLibraryView {
            name: self.name@,
            locations: self.locations.deep_view(),
            media_type: self.media_type,
        }
    }
}

/// Where an insert stands.
#[derive(Copy, Clone, Debug, PartialEq, Eq, Structural)]
pub enum InsertState {
    /// Nothing has been issued.
    Start,
    /// Waiting for the transaction to open.
    Beginning,
    /// Waiting for the library row and its id.
    InsertingLibrary,
    /// Waiting for a location row; `sent` location statements have been issued.
    InsertingLocations { lib_id: i64, sent: usize },
    /// Waiting for the commit.
    Committing { lib_id: i64 },
}

impl InsertableLibraryView {
    /// After the library row got `lib_id` and `sent` locations were written:
    /// write the next location, or commit when none is left.
    pub open spec fn continue_insert(self, lib_id: i64, sent: usize) -> StepView<
        InsertState,
        Result<i64, DatabaseError>,
    > {
        if sent < self.locations.len() {
            StepView::Issue(
                InsertState::InsertingLocations { lib_id, sent: (sent + 1) as usize },
                StatementView::InsertLocation {
                    location: self.locations[sent as int],
                    library_id: lib_id,
                },
            )
        } else {
            StepView::Issue(InsertState::Committing { lib_id }, StatementView::Commit)
        }
    }

    /// The next step of an insert: open a transaction, create the library row,
    /// create one location row per path under the id that came back, commit,
    /// and finish with that id. The first reply that is not the expected
    /// success ends the insert with a storage error and nothing committed.
    pub open spec fn insert_step(self, state: InsertState, reply: Option<ReplyView>) -> StepView<
        InsertState,
        Result<i64, DatabaseError>,
    > {
        match (state, reply) {
            (InsertState::Start, _) => StepView::Issue(
                InsertState::Beginning,
                StatementView::Begin,
            ),
            (InsertState::Beginning, Some(ReplyView::Done)) => StepView::Issue(
                InsertState::InsertingLibrary,
                StatementView::InsertLibrary { name: self.name, media_type: self.media_type },
            ),
            (
                InsertState::InsertingLibrary,
                Some(ReplyView::Executed { generated_id: Some(lib_id), .. }),
            ) => self.continue_insert(lib_id, 0),
            (
                InsertState::InsertingLocations { lib_id, sent },
                Some(ReplyView::Executed { .. }),
            ) => self.continue_insert(lib_id, sent),
            (InsertState::Committing { lib_id }, Some(ReplyView::Done)) => StepView::Finish(
                Ok(lib_id),
            ),
            _ => StepView::Finish(Err(DatabaseError::StorageError)),
        }
    }
}

impl InsertableLibrary {
    fn continue_insert(&self, lib_id: i64, sent: usize) -> (step: Step<
        InsertState,
        Result<i64, DatabaseError>,
    >)
        ensures
            step matches Step::Issue(next, statement) && self@.continue_insert(lib_id, sent)
                == StepView::<InsertState, Result<i64, DatabaseError>>::Issue(next, statement@),
    {
        if sent < self.locations.len() {
            Step::Issue(
                InsertState::InsertingLocations { lib_id, sent: sent + 1 },
                Statement::InsertLocation {
                    location: self.locations[sent].clone(),
                    library_id: lib_id,
                },
            )
        } else {
            Step::Issue(InsertState::Committing { lib_id }, Statement::Commit)
        }
    }

    /// Creates this library and its locations in one transaction: resumes the
    /// insert from `state` with the backend's `reply`.
    pub fn insert(&self, state: InsertState, reply: Option<Reply>) -> (step: Step<
        InsertState,
        Result<i64, DatabaseError>,
    >)
        ensures
            match step {
                Step::Issue(next, statement) => self@.insert_step(state, reply.deep_view())
                    == StepView::<InsertState, Result<i64, DatabaseError>>::Issue(
                    next,
                    statement@,
                ),
                Step::Finish(result) => self@.insert_step(state, reply.deep_view())
                    == StepView::<InsertState, Result<i64, DatabaseError>>::Finish(result),
            },
    {
        match (state, reply) {
            (InsertState::Start, _) => Step::Issue(InsertState::Beginning, Statement::Begin),
            (InsertState::Beginning, Some(Reply::Done)) => Step::Issue(
                InsertState::InsertingLibrary,
                Statement::InsertLibrary { name: self.name.clone(), media_type: self.media_type },
            ),
            (
                InsertState::InsertingLibrary,
                Some(Reply::Executed { generated_id: Some(lib_id), .. }),
            ) => self.continue_insert(lib_id, 0),
            (InsertState::InsertingLocations { lib_id, sent }, Some(Reply::Executed { .. })) => {
                self.continue_insert(lib_id, sent)
            },
            (InsertState::Committing { lib_id }, Some(Reply::Done)) => Step::Finish(Ok(lib_id)),
            _ => Step::Finish(Err(DatabaseError::StorageError)),
        }
    }
}

/// Where an operation of a single fetch stands.
#[derive(Copy, Clone, Debug, PartialEq, Eq, Structural)]
pub enum FetchState {
    /// Nothing has been issued.
    Start,
    /// Waiting for the rows.
    Fetching,
}

/// Where a lookup of one library stands.
#[derive(Clone, Debug, PartialEq, Eq)]
pub enum GetOneState {
    /// Nothing has been issued.
    Start,
    /// Waiting for the transaction to open.
    Beginning,
    /// Waiting for the library row.
    FetchingLibrary,
    /// Waiting for the locations of the library that was found.
    FetchingLocations { library: Library },
}

/// The mathematical content of a [`GetOneState`].
pub enum GetOneStateView {
    Start,
    Beginning,
    FetchingLibrary,
    FetchingLocations { library: LibraryView },
}

impl View for GetOneState {
    type V = GetOneStateView;

    open spec fn view(&self) -> GetOneStateView {
        match *self {
            GetOneState::Start => GetOneStateView::Start,
            GetOneState::Beginning => GetOneStateView::Beginning,
            GetOneState::FetchingLibrary => GetOneStateView::FetchingLibrary,
            GetOneState::FetchingLocations { library } => GetOneStateView::FetchingLocations {
                library: library@,
            },
        }
    }
}

/// Where a delete stands.
#[derive(Copy, Clone, Debug, PartialEq, Eq, Structural)]
pub enum DeleteState {
    /// Nothing has been issued.
    Start,
    /// Waiting for the transaction to open.
    Beginning,
    /// Waiting for the library's locations to be removed.
    DeletingLocations,
    /// Waiting for the library row to be removed.
    DeletingLibrary,
    /// Waiting for the commit; `removed` library rows are gone.
    Committing { removed: usize },
}

/// The next step of a listing: fetch every library row and finish with
/// [`LibraryView::listing`] of them. A failed fetch finishes with the empty
/// list, as a fetch without rows does.
pub open spec fn get_all_step(state: FetchState, reply: Option<ReplyView>) -> StepView<
    FetchState,
    Seq<LibraryView>,
> {
    match (state, reply) {
        (FetchState::Start, _) => StepView::Issue(
            FetchState::Fetching,
            StatementView::SelectLibraries,
        ),
        (FetchState::Fetching, Some(ReplyView::Libraries(records))) => StepView::Finish(
            LibraryView::listing(records),
        ),
        _ => StepView::Finish(Seq::empty()),
    }
}

/// The next step of a fetch of the locations of library `id`: fetch them and
/// finish with what came back, be it empty. A failed fetch is a storage error.
pub open spec fn get_locations_step(
    id: i64,
    state: FetchState,
    reply: Option<ReplyView>,
) -> StepView<FetchState, Result<Seq<Seq<char>>, DatabaseError>> {
    match (state, reply) {
        (FetchState::Start, _) => StepView::Issue(
            FetchState::Fetching,
            StatementView::SelectLocations { library_id: id },
        ),
        (FetchState::Fetching, Some(ReplyView::Locations(locations))) => StepView::Finish(
            Ok(locations),
        ),
        _ => StepView::Finish(Err(DatabaseError::StorageError)),
    }
}

/// The next step of a lookup of library `lib_id`: open a transaction, fetch
/// the library row, then its locations, and finish with the library. No row
/// is `NotFound`, a row with an unknown media type a decode error, and every
/// other reply that is not the expected one a storage error.
pub open spec fn get_one_step(
    lib_id: i64,
    state: GetOneStateView,
    reply: Option<ReplyView>,
) -> StepView<GetOneStateView, Result<LibraryView, DatabaseError>> {
    match (state, reply) {
        (GetOneStateView::Start, _) => StepView::Issue(
            GetOneStateView::Beginning,
            StatementView::Begin,
        ),
        (GetOneStateView::Beginning, Some(ReplyView::Done)) => StepView::Issue(
            GetOneStateView::FetchingLibrary,
            StatementView::SelectLibrary { id: lib_id },
        ),
        (GetOneStateView::FetchingLibrary, Some(ReplyView::Libraries(records))) => {
            if records.len() == 0 {
                StepView::Finish(Err(DatabaseError::NotFound))
            } else {
                match LibraryView::from_record(records[0]) {
                    Some(library) => StepView::Issue(
                        GetOneStateView::FetchingLocations { library },
                        StatementView::SelectLocations { library_id: lib_id },
                    ),
                    None => StepView::Finish(Err(DatabaseError::DecodeError)),
                }
            }
        },
        (
            GetOneStateView::FetchingLocations { library },
            Some(ReplyView::Locations(locations)),
        ) => StepView::Finish(Ok(library.with_locations(locations))),
        _ => StepView::Finish(Err(DatabaseError::StorageError)),
    }
}

/// The next step of a delete of library `id`: open a transaction, remove the
/// library's locations, then its row, commit, and finish with the number of
/// library rows that were removed. The first reply that is not the expected
/// success ends the delete with a storage error and nothing committed.
pub open spec fn delete_step(id: i64, state: DeleteState, reply: Option<ReplyView>) -> StepView<
    DeleteState,
    Result<usize, DatabaseError>,
> {
    match (state, reply) {
        (DeleteState::Start, _) => StepView::Issue(DeleteState::Beginning, StatementView::Begin),
        (DeleteState::Beginning, Some(ReplyView::Done)) => StepView::Issue(
            DeleteState::DeletingLocations,
            StatementView::DeleteLocations { library_id: id },
        ),
        (DeleteState::DeletingLocations, Some(ReplyView::Executed { .. })) => StepView::Issue(
            DeleteState::DeletingLibrary,
            StatementView::DeleteLibrary { id },
        ),
        (DeleteState::DeletingLibrary, Some(ReplyView::Executed { rows_affected, .. })) => {
            StepView::Issue(
                DeleteState::Committing { removed: rows_affected as usize },
                StatementView::Commit,
            )
        },
        (DeleteState::Committing { removed }, Some(ReplyView::Done)) => StepView::Finish(
            Ok(removed),
        ),
        _ => StepView::Finish(Err(DatabaseError::StorageError)),
    }
}

/// The mathematical content of the result of a lookup.
pub open spec fn lookup_view(result: Result<Library, DatabaseError>) -> Result<
    LibraryView,
    DatabaseError,
> {
    match result {
        Ok(library) => Ok(library@),
        Err(error) => Err(error),
    }
}

/// The mathematical content of the result of a fetch of locations.
pub open spec fn locations_view(result: Result<Vec<String>, DatabaseError>) -> Result<
    Seq<Seq<char>>,
    DatabaseError,
> {
    match result {
        Ok(locations) => Ok(locations.deep_view()),
        Err(error) => Err(error),
    }
}

impl Library {
    /// Reads a row of the `library` table. The library has no locations yet.
    pub fn from_row(row: &LibraryRow) -> (library: Result<Library, DatabaseError>)
        ensures
            match library {
                Ok(library) => LibraryView::from_record(row@) == Some(library@),
                Err(error) => error == DatabaseError::DecodeError && LibraryView::from_record(
                    row@,
                ) is None,
            },
    {
        match MediaType::decode(row.media_type.as_str()) {
            Ok(media_type) => {
                let library = Library {
                    id: row.id,
                    name: row.name.clone(),
                    locations: Vec::new(),
                    media_type,
                };
                assert(library.locations.deep_view() == Seq::<Seq<char>>::empty());
                Ok(library)
            },
            Err(error) => Err(error),
        }
    }

    /// The libraries of a listing, for the rows that were fetched.
    fn listing(rows: &Vec<LibraryRow>) -> (libraries: Vec<Library>)
        ensures
            libraries.deep_view() == LibraryView::listing(rows.deep_view()),
    {
        let mut libraries: Vec<Library> = Vec::new();
        let mut at: usize = 0;
        while at < rows.len()
            invariant
                at <= rows.len(),
                libraries.len() == at,
                forall|i: int|
                    0 <= i < at ==> LibraryView::from_record(#[trigger] rows.deep_view()[i])
                        == Some(libraries[i]@),
            decreases rows.len() - at,
        {
            match Library::from_row(&rows[at]) {
                Ok(library) => {
                    libraries.push(library);
                },
                Err(_) => {
                    assert(LibraryView::from_record(rows.deep_view()[at as int]) is None);
                    let none: Vec<Library> = Vec::new();
                    assert(none.deep_view() == Seq::<LibraryView>::empty());
                    return none;
                },
            }
            at += 1;
        }
        assert(libraries.deep_view() == LibraryView::listing(rows.deep_view()));
        libraries
    }

    /// Lists every library, each without its locations: resumes the listing
    /// from `state` with the backend's `reply`. The order is the backend's.
    /// A failure of the backend gives the empty list, not an error: a caller
    /// cannot tell a read that failed from a catalog without libraries.
    pub fn get_all(state: FetchState, reply: Option<Reply>) -> (step: Step<
        FetchState,
        Vec<Library>,
    >)
        ensures
            match step {
                Step::Issue(next, statement) => get_all_step(state, reply.deep_view())
                    == StepView::<FetchState, Seq<LibraryView>>::Issue(next, statement@),
                Step::Finish(libraries) => get_all_step(state, reply.deep_view())
                    == StepView::<FetchState, Seq<LibraryView>>::Finish(libraries.deep_view()),
            },
    {
        match (state, reply) {
            (FetchState::Start, _) => Step::Issue(FetchState::Fetching, Statement::SelectLibraries),
            (FetchState::Fetching, Some(Reply::Libraries(rows))) => Step::Finish(
                Library::listing(&rows),
            ),
            _ => {
                let none: Vec<Library> = Vec::new();
                assert(none.deep_view() == Seq::<LibraryView>::empty());
                Step::Finish(none)
            },
        }
    }

    /// Fetches the locations of library `id`: resumes the fetch from `state`
    /// with the backend's `reply`. A library without locations, or without a
    /// row, has the empty list.
    pub fn get_locations(id: i64, state: FetchState, reply: Option<Reply>) -> (step: Step<
        FetchState,
        Result<Vec<String>, DatabaseError>,
    >)
        ensures
            match step {
                Step::Issue(next, statement) => get_locations_step(id, state, reply.deep_view())
                    == StepView::<FetchState, Result<Seq<Seq<char>>, DatabaseError>>::Issue(
                    next,
                    statement@,
                ),
                Step::Finish(result) => get_locations_step(id, state, reply.deep_view())
                    == StepView::<FetchState, Result<Seq<Seq<char>>, DatabaseError>>::Finish(
                    locations_view(result),
                ),
            },
    {
        match (state, reply) {
            (FetchState::Start, _) => Step::Issue(
                FetchState::Fetching,
                Statement::SelectLocations { library_id: id },
            ),
            (FetchState::Fetching, Some(Reply::Locations(locations))) => Step::Finish(
                Ok(locations),
            ),
            _ => Step::Finish(Err(DatabaseError::StorageError)),
        }
    }

    /// Looks up library `lib_id` with its locations, both read in one
    /// transaction: resumes the lookup from `state` with the backend's `reply`.
    pub fn get_one(lib_id: i64, state: GetOneState, reply: Option<Reply>) -> (step: Step<
        GetOneState,
        Result<Library, DatabaseError>,
    >)
        ensures
            match step {
                Step::Issue(next, statement) => get_one_step(lib_id, state@, reply.deep_view())
                    == StepView::<GetOneStateView, Result<LibraryView, DatabaseError>>::Issue(
                    next@,
                    statement@,
                ),
                Step::Finish(result) => get_one_step(lib_id, state@, reply.deep_view())
                    == StepView::<GetOneStateView, Result<LibraryView, DatabaseError>>::Finish(
                    lookup_view(result),
                ),
            },
    {
        match (state, reply) {
            (GetOneState::Start, _) => Step::Issue(GetOneState::Beginning, Statement::Begin),
            (GetOneState::Beginning, Some(Reply::Done)) => Step::Issue(
                GetOneState::FetchingLibrary,
                Statement::SelectLibrary { id: lib_id },
            ),
            (GetOneState::FetchingLibrary, Some(Reply::Libraries(rows))) => {
                if rows.len() == 0 {
                    Step::Finish(Err(DatabaseError::NotFound))
                } else {
                    assert(rows.deep_view()[0] == rows[0]@);
                    match Library::from_row(&rows[0]) {
                        Ok(library) => Step::Issue(
                            GetOneState::FetchingLocations { library },
                            Statement::SelectLocations { library_id: lib_id },
                        ),
                        Err(error) => Step::Finish(Err(error)),
                    }
                }
            },
            (GetOneState::FetchingLocations { library }, Some(Reply::Locations(locations))) => {
                Step::Finish(
                    Ok(
                        Library {
                            id: library.id,
                            name: library.name,
                            locations,
                            media_type: library.media_type,
                        },
                    ),
                )
            },
            _ => Step::Finish(Err(DatabaseError::StorageError)),
        }
    }

    /// Removes library `id_to_del` and its locations in one transaction:
    /// resumes the delete from `state` with the backend's `reply`. It finishes
    /// with the number of library rows removed; none is no error.
    pub fn delete(id_to_del: i64, state: DeleteState, reply: Option<Reply>) -> (step: Step<
        DeleteState,
        Result<usize, DatabaseError>,
    >)
        ensures
            match step {
                Step::Issue(next, statement) => delete_step(id_to_del, state, reply.deep_view())
                    == StepView::<DeleteState, Result<usize, DatabaseError>>::Issue(
                    next,
                    statement@,
                ),
                Step::Finish(result) => delete_step(id_to_del, state, reply.deep_view())
                    == StepView::<DeleteState, Result<usize, DatabaseError>>::Finish(result),
            },
    {
        match (state, reply) {
            (DeleteState::Start, _) => Step::Issue(DeleteState::Beginning, Statement::Begin),
            (DeleteState::Beginning, Some(Reply::Done)) => Step::Issue(
                DeleteState::DeletingLocations,
                Statement::DeleteLocations { library_id: id_to_del },
            ),
            (DeleteState::DeletingLocations, Some(Reply::Executed { .. })) => Step::Issue(
                DeleteState::DeletingLibrary,
                Statement::DeleteLibrary { id: id_to_del },
            ),
            (DeleteState::DeletingLibrary, Some(Reply::Executed { rows_affected, .. })) => {
                Step::Issue(
                    DeleteState::Committing {
                        removed: #[verifier::truncate]
                        (rows_affected as usize),
                    },
                    Statement::Commit,
                )
            },
            (DeleteState::Committing { removed }, Some(Reply::Done)) => Step::Finish(Ok(removed)),
            _ => Step::Finish(Err(DatabaseError::StorageError)),
        }
    }
}

} // verus!
