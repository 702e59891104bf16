//! What a catalog operation and a relational backend say to each other.
//!
//! An operation issues one [`Statement`] at a time and is resumed with the
//! backend's [`Reply`]. A statement names what is to be done and carries its
//! parameters; how it is sent is the business of whoever holds the connection.
//! A transaction is a scope: it opens with [`Statement::Begin`], and when the
//! operation finishes, whatever it left uncommitted is rolled back.
use crate::media_type::MediaType;
use vstd::prelude::*;

verus! {

/// A row of the `library` table as a backend hands it out: the media type is
/// still the stored token.
#[derive(Clone, Debug, PartialEq, Eq)]
pub struct LibraryRow {
    pub id: i64,
    pub name: String,
    pub media_type: String,
}

/// The mathematical content of a [`LibraryRow`].
pub struct LibraryRecord {
    pub id: i64,
    pub name: Seq<char>,
    pub media_type: Seq<char>,
}

impl View for LibraryRow {
    type V = LibraryRecord;

    open spec fn view(&self) -> LibraryRecord {
        LibraryRecord { id: self.id, name: self.name@, media_type: self.media_type@ }
    }
}

impl DeepView for LibraryRow {
    type V = LibraryRecord;

    open spec fn deep_view(&self) -> LibraryRecord {
        self@
    }
}

/// A request to the backend.
#[derive(Clone, Debug, PartialEq, Eq)]
pub enum Statement {
    /// Open a transaction scope.
    Begin,
    /// Make the writes of the open transaction visible and close it.
    Commit,
    /// Fetch every row of `library`.
    SelectLibraries,
    /// Fetch the rows of `library` with this id.
    SelectLibrary { id: i64 },
    /// Fetch the `location` of every row of `indexed_paths` bound to this library.
    SelectLocations { library_id: i64 },
    /// Create a row of `library`; the backend assigns its id.
    InsertLibrary { name: String, media_type: MediaType },
    /// Create a row of `indexed_paths`.
    InsertLocation { location: String, library_id: i64 },
    /// Remove every row of `indexed_paths` bound to this library.
    DeleteLocations { library_id: i64 },
    /// Remove the rows of `library` with this id.
    DeleteLibrary { id: i64 },
}

/// The mathematical content of a [`Statement`].
pub enum StatementView {
    Begin,
    Commit,
    SelectLibraries,
    SelectLibrary { id: i64 },
    SelectLocations { library_id: i64 },
    InsertLibrary { name: Seq<char>, media_type: MediaType },
    InsertLocation { location: Seq<char>, library_id: i64 },
    DeleteLocations { library_id: i64 },
    DeleteLibrary { id: i64 },
}

impl View for Statement {
    type V = StatementView;

    open spec fn view(&self) -> StatementView {
        match *self {
            Statement::Begin => StatementView::Begin,
            Statement::Commit => StatementView::Commit,
            Statement::SelectLibraries => StatementView::SelectLibraries,
            Statement::SelectLibrary { id } => StatementView::SelectLibrary { id },
            Statement::SelectLocations { library_id } => StatementView::SelectLocations {
                library_id,
            },
            Statement::InsertLibrary { name, media_type } => StatementView::InsertLibrary {
                name: name@,
                media_type,
            },
            Statement::InsertLocation { location, library_id } => StatementView::InsertLocation {
                location: location@,
                library_id,
            },
            Statement::DeleteLocations { library_id } => StatementView::DeleteLocations {
                library_id,
            },
            Statement::DeleteLibrary { id } => StatementView::DeleteLibrary { id },
        }
    }
}

impl StatementView {
    /// The SQL text of a statement, with its parameters left as placeholders
    /// in the order of the statement's fields.
    pub open spec fn sql(self) -> Seq<char> {
        match self {
            StatementView::Begin => "BEGIN"@,
            StatementView::Commit => "COMMIT"@,
            StatementView::SelectLibraries => "SELECT id, name, media_type FROM library"@,
            StatementView::SelectLibrary { .. } =>
                "SELECT id, name, media_type FROM library WHERE id = ?"@,
            StatementView::SelectLocations { .. } =>
                "SELECT location FROM indexed_paths WHERE library_id = ?"@,
            StatementView::InsertLibrary { .. } =>
                "INSERT INTO library (name, media_type) VALUES ($1, $2)"@,
            StatementView::InsertLocation { .. } =>
                "INSERT INTO indexed_paths (location, library_id) VALUES ($1, $2)"@,
            StatementView::DeleteLocations { .. } =>
                "DELETE FROM indexed_paths WHERE library_id = ?"@,
            StatementView::DeleteLibrary { .. } => "DELETE FROM library WHERE id = ?"@,
        }
    }
}

impl Statement {
    /// The SQL text to send for this statement.
    pub fn sql(&self) -> (text: &'static str)
        ensures
            text@ == self@.sql(),
    {
        match self {
            Statement::Begin => "BEGIN",
            Statement::Commit => "COMMIT",
            Statement::SelectLibraries => "SELECT id, name, media_type FROM library",
            Statement::SelectLibrary { .. } =>
                "SELECT id, name, media_type FROM library WHERE id = ?",
            Statement::SelectLocations { .. } =>
                "SELECT location FROM indexed_paths WHERE library_id = ?",
            Statement::InsertLibrary { .. } =>
                "INSERT INTO library (name, media_type) VALUES ($1, $2)",
            Statement::InsertLocation { .. } =>
                "INSERT INTO indexed_paths (location, library_id) VALUES ($1, $2)",
            Statement::DeleteLocations { .. } => "DELETE FROM indexed_paths WHERE library_id = ?",
            Statement::DeleteLibrary { .. } => "DELETE FROM library WHERE id = ?",
        }
    }
}

/// What the backend answers to a statement.
#[derive(Clone, Debug, PartialEq, Eq)]
pub enum Reply {
    /// A transaction was opened or committed.
    Done,
    /// A write was carried out. `generated_id` is the id that the backend
    /// assigned, where the statement created a row of `library`.
    Executed { rows_affected: u64, generated_id: Option<i64> },
    /// The rows that a fetch on `library` found.
    Libraries(Vec<LibraryRow>),
    /// The locations that a fetch on `indexed_paths` found.
    Locations(Vec<String>),
    /// The statement was rejected or could not be carried out, and did nothing.
    Failed,
}

/// The mathematical content of a [`Reply`].
pub enum ReplyView {
    Done,
    Executed { rows_affected: int, generated_id: Option<i64> },
    Libraries(Seq<LibraryRecord>),
    Locations(Seq<Seq<char>>),
    Failed,
}

impl View for Reply {
    type V = ReplyView;

    open spec fn view(&self) -> ReplyView {
        match *self {
            Reply::Done => ReplyView::Done,
            Reply::Executed { rows_affected, generated_id } => ReplyView::Executed {
                rows_affected: rows_affected as int,
                generated_id,
            },
            Reply::Libraries(rows) => ReplyView::Libraries(rows.deep_view()),
            Reply::Locations(locations) => ReplyView::Locations(locations.deep_view()),
            Reply::Failed => ReplyView::Failed,
        }
    }
}

impl DeepView for Reply {
    type V = ReplyView;

    open spec fn deep_view(&self) -> ReplyView {
        self@
    }
}

/// What an operation does next: issue a statement and wait in a new state,
/// or finish with its result.
#[derive(Clone, Debug, PartialEq, Eq)]
pub enum Step<S, T> {
    Issue(S, Statement),
    Finish(T),
}

/// The mathematical content of a [`Step`].
pub enum StepView<S, T> {
    Issue(S, StatementView),
    Finish(T),
}

} // verus!
