use dim_catalog::{
    DatabaseError, DeleteState, FetchState, GetOneState, InsertState, InsertableLibrary, Library,
    LibraryRow, MediaType, MemoryDatabase, Reply, Statement, Step,
};

/// Answers a statement from the database, unless it is the one that is to fail.
fn answer(
    database: &mut MemoryDatabase,
    statement: &Statement,
    issued: &mut usize,
    failing: Option<usize>,
) -> Reply {
    let number = *issued;
    *issued += 1;
    if failing == Some(number) {
        Reply::Failed
    } else {
        database.respond(statement)
    }
}

fn insert(
    database: &mut MemoryDatabase,
    library: &InsertableLibrary,
    failing: Option<usize>,
) -> Result<i64, DatabaseError> {
    let mut state = InsertState::Start;
    let mut reply = None;
    let mut issued = 0;
    loop {
        match library.insert(state, reply) {
            Step::Issue(next, statement) => {
                reply = Some(answer(database, &statement, &mut issued, failing));
                state = next;
            }
            Step::Finish(result) => {
                database.release();
                return result;
            }
        }
    }
}

fn delete(
    database: &mut MemoryDatabase,
    id: i64,
    failing: Option<usize>,
) -> Result<usize, DatabaseError> {
    let mut state = DeleteState::Start;
    let mut reply = None;
    let mut issued = 0;
    loop {
        match Library::delete(id, state, reply) {
            Step::Issue(next, statement) => {
                reply = Some(answer(database, &statement, &mut issued, failing));
                state = next;
            }
            Step::Finish(result) => {
                database.release();
                return result;
            }
        }
    }
}

fn get_one(
    database: &mut MemoryDatabase,
    id: i64,
    failing: Option<usize>,
) -> Result<Library, DatabaseError> {
    let mut state = GetOneState::Start;
    let mut reply = None;
    let mut issued = 0;
    loop {
        match Library::get_one(id, state, reply) {
            Step::Issue(next, statement) => {
                reply = Some(answer(database, &statement, &mut issued, failing));
                state = next;
            }
            Step::Finish(result) => {
                database.release();
                return result;
            }
        }
    }
}

fn get_all(database: &mut MemoryDatabase, failing: Option<usize>) -> Vec<Library> {
    let mut state = FetchState::Start;
    let mut reply = None;
    let mut issued = 0;
    loop {
        match Library::get_all(state, reply) {
            Step::Issue(next, statement) => {
                reply = Some(answer(database, &statement, &mut issued, failing));
                state = next;
            }
            Step::Finish(libraries) => {
                database.release();
                return libraries;
            }
        }
    }
}

fn get_locations(
    database: &mut MemoryDatabase,
    id: i64,
    failing: Option<usize>,
) -> Result<Vec<String>, DatabaseError> {
    let mut state = FetchState::Start;
    let mut reply = None;
    let mut issued = 0;
    loop {
        match Library::get_locations(id, state, reply) {
            Step::Issue(next, statement) => {
                reply = Some(answer(database, &statement, &mut issued, failing));
                state = next;
            }
            Step::Finish(result) => {
                database.release();
                return result;
            }
        }
    }
}

fn library(name: &str, media_type: MediaType, locations: &[&str]) -> InsertableLibrary {
    InsertableLibrary {
        name: name.to_string(),
        locations: locations.iter().map(|path| path.to_string()).collect(),
        media_type,
    }
}

fn row(id: i64, name: &str, media_type: &str) -> LibraryRow {
    LibraryRow { id, name: name.to_string(), media_type: media_type.to_string() }
}

/// Every row of both tables, read past the operations.
fn rows(database: &mut MemoryDatabase, ids: &[i64]) -> (Reply, Vec<Reply>) {
    let libraries = database.respond(&Statement::SelectLibraries);
    let locations = ids
        .iter()
        .map(|id| database.respond(&Statement::SelectLocations { library_id: *id }))
        .collect();
    (libraries, locations)
}

#[test]
fn insert_get_delete_scenario() {
    let mut database = MemoryDatabase::new();
    let movies = library("Movies", MediaType::Movie, &["/media/movies"]);
    assert_eq!(insert(&mut database, &movies, None), Ok(1));
    assert_eq!(
        get_one(&mut database, 1, None),
        Ok(Library {
            id: 1,
            name: "Movies".to_string(),
            locations: vec!["/media/movies".to_string()],
            media_type: MediaType::Movie,
        })
    );
    assert_eq!(delete(&mut database, 1, None), Ok(1));
    assert_eq!(get_one(&mut database, 1, None), Err(DatabaseError::NotFound));
    assert_eq!(get_locations(&mut database, 1, None), Ok(vec![]));
}

#[test]
fn insert_writes_every_location_under_the_new_id() {
    let mut database = MemoryDatabase::new();
    let shows = library("Shows", MediaType::Tv, &["/a", "/b", "/c"]);
    assert_eq!(insert(&mut database, &shows, None), Ok(1));
    assert_eq!(
        database.respond(&Statement::SelectLibraries),
        Reply::Libraries(vec![row(1, "Shows", "tv")])
    );
    assert_eq!(
        database.respond(&Statement::SelectLocations { library_id: 1 }),
        Reply::Locations(vec!["/a".to_string(), "/b".to_string(), "/c".to_string()])
    );
    assert_eq!(
        get_locations(&mut database, 1, None),
        Ok(vec!["/a".to_string(), "/b".to_string(), "/c".to_string()])
    );
}

#[test]
fn insert_without_locations_creates_the_library_alone() {
    let mut database = MemoryDatabase::new();
    let empty = library("Empty", MediaType::Episode, &[]);
    assert_eq!(insert(&mut database, &empty, None), Ok(1));
    assert_eq!(
        get_one(&mut database, 1, None),
        Ok(Library {
            id: 1,
            name: "Empty".to_string(),
            locations: vec![],
            media_type: MediaType::Episode,
        })
    );
    assert_eq!(get_locations(&mut database, 1, None), Ok(vec![]));
}

#[test]
fn insert_keeps_equal_paths_apart() {
    let mut database = MemoryDatabase::new();
    let twice = library("Twice", MediaType::Movie, &["/same", "/same"]);
    assert_eq!(insert(&mut database, &twice, None), Ok(1));
    assert_eq!(
        get_locations(&mut database, 1, None),
        Ok(vec!["/same".to_string(), "/same".to_string()])
    );
}

#[test]
fn failed_insert_leaves_nothing_behind() {
    let shows = library("Shows", MediaType::Tv, &["/a", "/b", "/c"]);
    // begin, the library row, three locations, commit
    for failing in 0..6 {
        let mut database = MemoryDatabase::new();
        let movies = library("Movies", MediaType::Movie, &["/media/movies"]);
        assert_eq!(insert(&mut database, &movies, None), Ok(1));
        let before = rows(&mut database, &[1, 2]);

        assert_eq!(
            insert(&mut database, &shows, Some(failing)),
            Err(DatabaseError::StorageError)
        );
        assert_eq!(rows(&mut database, &[1, 2]), before);
        assert_eq!(get_one(&mut database, 2, None), Err(DatabaseError::NotFound));
        assert_eq!(get_locations(&mut database, 2, None), Ok(vec![]));
        assert_eq!(get_all(&mut database, None).len(), 1);

        // Nothing is left open: the next insert goes through.
        assert_eq!(insert(&mut database, &shows, None), Ok(2));
        assert_eq!(get_one(&mut database, 2, None).map(|found| found.locations.len()), Ok(3));
    }
}

#[test]
fn insert_with_a_fault_that_is_never_reached_succeeds() {
    let mut database = MemoryDatabase::new();
    let shows = library("Shows", MediaType::Tv, &["/a", "/b", "/c"]);
    assert_eq!(insert(&mut database, &shows, Some(6)), Ok(1));
}

#[test]
fn insert_issues_its_statements_in_order() {
    let shows = library("Shows", MediaType::Tv, &["/a", "/b"]);
    let executed = || Some(Reply::Executed { rows_affected: 1, generated_id: None });
    assert_eq!(
        shows.insert(InsertState::Start, None),
        Step::Issue(InsertState::Beginning, Statement::Begin)
    );
    assert_eq!(
        shows.insert(InsertState::Beginning, Some(Reply::Done)),
        Step::Issue(
            InsertState::InsertingLibrary,
            Statement::InsertLibrary { name: "Shows".to_string(), media_type: MediaType::Tv }
        )
    );
    assert_eq!(
        shows.insert(
            InsertState::InsertingLibrary,
            Some(Reply::Executed { rows_affected: 1, generated_id: Some(41) })
        ),
        Step::Issue(
            InsertState::InsertingLocations { lib_id: 41, sent: 1 },
            Statement::InsertLocation { location: "/a".to_string(), library_id: 41 }
        )
    );
    assert_eq!(
        shows.insert(InsertState::InsertingLocations { lib_id: 41, sent: 1 }, executed()),
        Step::Issue(
            InsertState::InsertingLocations { lib_id: 41, sent: 2 },
            Statement::InsertLocation { location: "/b".to_string(), library_id: 41 }
        )
    );
    assert_eq!(
        shows.insert(InsertState::InsertingLocations { lib_id: 41, sent: 2 }, executed()),
        Step::Issue(InsertState::Committing { lib_id: 41 }, Statement::Commit)
    );
    assert_eq!(
        shows.insert(InsertState::Committing { lib_id: 41 }, Some(Reply::Done)),
        Step::Finish(Ok(41))
    );
}

#[test]
fn insert_takes_a_wrong_reply_for_a_failure() {
    let shows = library("Shows", MediaType::Tv, &["/a"]);
    let failed = Step::Finish(Err(DatabaseError::StorageError));
    assert_eq!(shows.insert(InsertState::Beginning, None), failed);
    assert_eq!(shows.insert(InsertState::Beginning, Some(Reply::Failed)), failed);
    assert_eq!(shows.insert(InsertState::Beginning, Some(Reply::Locations(vec![]))), failed);
    assert_eq!(shows.insert(InsertState::InsertingLibrary, Some(Reply::Done)), failed);
    assert_eq!(
        shows.insert(
            InsertState::InsertingLibrary,
            Some(Reply::Executed { rows_affected: 1, generated_id: None })
        ),
        failed
    );
    assert_eq!(
        shows.insert(InsertState::InsertingLocations { lib_id: 1, sent: 1 }, Some(Reply::Failed)),
        failed
    );
    assert_eq!(shows.insert(InsertState::Committing { lib_id: 1 }, Some(Reply::Failed)), failed);
    assert_eq!(shows.insert(InsertState::Committing { lib_id: 1 }, None), failed);
}

#[test]
fn delete_cascades_to_the_locations() {
    let mut database = MemoryDatabase::new();
    let movies = library("Movies", MediaType::Movie, &["/m1", "/m2"]);
    let shows = library("Shows", MediaType::Tv, &["/s1", "/s2", "/s3"]);
    assert_eq!(insert(&mut database, &movies, None), Ok(1));
    assert_eq!(insert(&mut database, &shows, None), Ok(2));

    assert_eq!(delete(&mut database, 2, None), Ok(1));

    assert_eq!(
        database.respond(&Statement::SelectLibrary { id: 2 }),
        Reply::Libraries(vec![])
    );
    assert_eq!(
        database.respond(&Statement::SelectLocations { library_id: 2 }),
        Reply::Locations(vec![])
    );
    assert_eq!(
        database.respond(&Statement::SelectLibraries),
        Reply::Libraries(vec![row(1, "Movies", "movie")])
    );
    assert_eq!(
        get_one(&mut database, 1, None).map(|found| found.locations),
        Ok(vec!["/m1".to_string(), "/m2".to_string()])
    );
}

#[test]
fn delete_of_an_absent_id_returns_zero() {
    let mut database = MemoryDatabase::new();
    assert_eq!(delete(&mut database, 1, None), Ok(0));
    let movies = library("Movies", MediaType::Movie, &["/m1"]);
    assert_eq!(insert(&mut database, &movies, None), Ok(1));
    assert_eq!(delete(&mut database, 5, None), Ok(0));
    assert_eq!(delete(&mut database, -3, None), Ok(0));
    assert_eq!(get_one(&mut database, 1, None).map(|found| found.locations.len()), Ok(1));
    assert_eq!(delete(&mut database, 1, None), Ok(1));
    assert_eq!(delete(&mut database, 1, None), Ok(0));
    assert_eq!(delete(&mut database, 1, None), Ok(0));
}

#[test]
fn failed_delete_removes_nothing() {
    // begin, the locations, the library row, commit
    for failing in 0..4 {
        let mut database = MemoryDatabase::new();
        let movies = library("Movies", MediaType::Movie, &["/m1", "/m2"]);
        assert_eq!(insert(&mut database, &movies, None), Ok(1));
        let before = rows(&mut database, &[1]);

        assert_eq!(delete(&mut database, 1, Some(failing)), Err(DatabaseError::StorageError));
        assert_eq!(rows(&mut database, &[1]), before);
        assert_eq!(get_one(&mut database, 1, None).map(|found| found.locations.len()), Ok(2));

        assert_eq!(delete(&mut database, 1, None), Ok(1));
    }
}

#[test]
fn delete_issues_its_statements_in_order() {
    assert_eq!(
        Library::delete(9, DeleteState::Start, None),
        Step::Issue(DeleteState::Beginning, Statement::Begin)
    );
    assert_eq!(
        Library::delete(9, DeleteState::Beginning, Some(Reply::Done)),
        Step::Issue(
            DeleteState::DeletingLocations,
            Statement::DeleteLocations { library_id: 9 }
        )
    );
    assert_eq!(
        Library::delete(
            9,
            DeleteState::DeletingLocations,
            Some(Reply::Executed { rows_affected: 4, generated_id: None })
        ),
        Step::Issue(DeleteState::DeletingLibrary, Statement::DeleteLibrary { id: 9 })
    );
    assert_eq!(
        Library::delete(
            9,
            DeleteState::DeletingLibrary,
            Some(Reply::Executed { rows_affected: 1, generated_id: None })
        ),
        Step::Issue(DeleteState::Committing { removed: 1 }, Statement::Commit)
    );
    assert_eq!(
        Library::delete(9, DeleteState::Committing { removed: 1 }, Some(Reply::Done)),
        Step::Finish(Ok(1))
    );
    assert_eq!(
        Library::delete(9, DeleteState::Committing { removed: 1 }, Some(Reply::Failed)),
        Step::Finish(Err(DatabaseError::StorageError))
    );
    assert_eq!(
        Library::delete(9, DeleteState::DeletingLibrary, Some(Reply::Done)),
        Step::Finish(Err(DatabaseError::StorageError))
    );
}

#[test]
fn get_one_follows_the_last_commit() {
    let mut database = MemoryDatabase::new();
    let two = library("Two", MediaType::Movie, &["/1", "/2"]);
    let five = library("Five", MediaType::Tv, &["/1", "/2", "/3", "/4", "/5"]);

    assert_eq!(get_one(&mut database, 1, None), Err(DatabaseError::NotFound));
    assert_eq!(insert(&mut database, &two, None), Ok(1));
    assert_eq!(get_one(&mut database, 1, None).map(|found| found.locations.len()), Ok(2));

    // A failed insert and another library change nothing for id 1.
    assert_eq!(insert(&mut database, &five, Some(4)), Err(DatabaseError::StorageError));
    assert_eq!(get_one(&mut database, 1, None).map(|found| found.locations.len()), Ok(2));
    assert_eq!(insert(&mut database, &five, None), Ok(2));
    assert_eq!(get_one(&mut database, 1, None).map(|found| found.locations.len()), Ok(2));
    assert_eq!(get_one(&mut database, 2, None).map(|found| found.locations.len()), Ok(5));

    // A failed delete changes nothing, a delete that went through does.
    assert_eq!(delete(&mut database, 1, Some(2)), Err(DatabaseError::StorageError));
    assert_eq!(get_one(&mut database, 1, None).map(|found| found.locations.len()), Ok(2));
    assert_eq!(delete(&mut database, 1, None), Ok(1));
    assert_eq!(get_one(&mut database, 1, None), Err(DatabaseError::NotFound));
    assert_eq!(get_one(&mut database, 2, None).map(|found| found.locations.len()), Ok(5));
}

#[test]
fn get_one_reports_a_failing_backend() {
    // begin, the library row, the locations
    for failing in 0..3 {
        let mut database = MemoryDatabase::new();
        let movies = library("Movies", MediaType::Movie, &["/m1"]);
        assert_eq!(insert(&mut database, &movies, None), Ok(1));
        assert_eq!(get_one(&mut database, 1, Some(failing)), Err(DatabaseError::StorageError));
        assert_eq!(get_one(&mut database, 1, None).map(|found| found.id), Ok(1));
    }
}

#[test]
fn get_one_of_an_absent_id_is_not_found_before_the_locations_are_read() {
    let mut database = MemoryDatabase::new();
    assert_eq!(get_one(&mut database, 1, Some(2)), Err(DatabaseError::NotFound));
    assert_eq!(
        Library::get_one(1, GetOneState::FetchingLibrary, Some(Reply::Libraries(vec![]))),
        Step::Finish(Err(DatabaseError::NotFound))
    );
}

#[test]
fn get_one_refuses_an_unknown_media_type() {
    assert_eq!(
        Library::get_one(
            3,
            GetOneState::FetchingLibrary,
            Some(Reply::Libraries(vec![row(3, "Songs", "music")]))
        ),
        Step::Finish(Err(DatabaseError::DecodeError))
    );
}

#[test]
fn get_one_issues_its_statements_in_order() {
    assert_eq!(
        Library::get_one(3, GetOneState::Start, None),
        Step::Issue(GetOneState::Beginning, Statement::Begin)
    );
    assert_eq!(
        Library::get_one(3, GetOneState::Beginning, Some(Reply::Done)),
        Step::Issue(GetOneState::FetchingLibrary, Statement::SelectLibrary { id: 3 })
    );
    let found = Library {
        id: 3,
        name: "Shows".to_string(),
        locations: vec![],
        media_type: MediaType::Tv,
    };
    assert_eq!(
        Library::get_one(
            3,
            GetOneState::FetchingLibrary,
            Some(Reply::Libraries(vec![row(3, "Shows", "tv")]))
        ),
        Step::Issue(
            GetOneState::FetchingLocations { library: found.clone() },
            Statement::SelectLocations { library_id: 3 }
        )
    );
    assert_eq!(
        Library::get_one(
            3,
            GetOneState::FetchingLocations { library: found },
            Some(Reply::Locations(vec!["/s".to_string()]))
        ),
        Step::Finish(Ok(Library {
            id: 3,
            name: "Shows".to_string(),
            locations: vec!["/s".to_string()],
            media_type: MediaType::Tv,
        }))
    );
    assert_eq!(
        Library::get_one(3, GetOneState::Beginning, Some(Reply::Failed)),
        Step::Finish(Err(DatabaseError::StorageError))
    );
    assert_eq!(
        Library::get_one(3, GetOneState::FetchingLibrary, Some(Reply::Locations(vec![]))),
        Step::Finish(Err(DatabaseError::StorageError))
    );
}

#[test]
fn get_all_lists_libraries_without_locations() {
    let mut database = MemoryDatabase::new();
    assert_eq!(get_all(&mut database, None), vec![]);
    assert_eq!(insert(&mut database, &library("Movies", MediaType::Movie, &["/m"]), None), Ok(1));
    assert_eq!(insert(&mut database, &library("Shows", MediaType::Tv, &["/s", "/t"]), None), Ok(2));
    assert_eq!(
        get_all(&mut database, None),
        vec![
            Library {
                id: 1,
                name: "Movies".to_string(),
                locations: vec![],
                media_type: MediaType::Movie,
            },
            Library {
                id: 2,
                name: "Shows".to_string(),
                locations: vec![],
                media_type: MediaType::Tv,
            },
        ]
    );
}

#[test]
fn get_all_degrades_to_empty_when_the_backend_fails() {
    let mut database = MemoryDatabase::new();
    assert_eq!(insert(&mut database, &library("Movies", MediaType::Movie, &["/m"]), None), Ok(1));
    assert_eq!(get_all(&mut database, Some(0)), vec![]);
    assert_eq!(Library::get_all(FetchState::Fetching, Some(Reply::Failed)), Step::Finish(vec![]));
    assert_eq!(Library::get_all(FetchState::Fetching, None), Step::Finish(vec![]));
    assert_eq!(Library::get_all(FetchState::Fetching, Some(Reply::Done)), Step::Finish(vec![]));
    assert_eq!(get_all(&mut database, None).len(), 1);
}

#[test]
fn get_all_is_empty_when_a_row_does_not_decode() {
    let rows = vec![row(1, "Movies", "movie"), row(2, "Songs", "music"), row(3, "Shows", "tv")];
    assert_eq!(
        Library::get_all(FetchState::Fetching, Some(Reply::Libraries(rows))),
        Step::Finish(vec![])
    );
}

#[test]
fn get_all_issues_one_fetch() {
    assert_eq!(
        Library::get_all(FetchState::Start, None),
        Step::Issue(FetchState::Fetching, Statement::SelectLibraries)
    );
    assert_eq!(
        Library::get_all(
            FetchState::Fetching,
            Some(Reply::Libraries(vec![row(8, "Shorts", "episode")]))
        ),
        Step::Finish(vec![Library {
            id: 8,
            name: "Shorts".to_string(),
            locations: vec![],
            media_type: MediaType::Episode,
        }])
    );
}

#[test]
fn get_locations_is_empty_for_a_library_without_any() {
    let mut database = MemoryDatabase::new();
    assert_eq!(get_locations(&mut database, 1, None), Ok(vec![]));
    assert_eq!(insert(&mut database, &library("Empty", MediaType::Tv, &[]), None), Ok(1));
    assert_eq!(get_locations(&mut database, 1, None), Ok(vec![]));
}

#[test]
fn get_locations_reports_a_failing_backend() {
    let mut database = MemoryDatabase::new();
    assert_eq!(insert(&mut database, &library("Movies", MediaType::Movie, &["/m"]), None), Ok(1));
    assert_eq!(get_locations(&mut database, 1, Some(0)), Err(DatabaseError::StorageError));
    assert_eq!(
        Library::get_locations(1, FetchState::Fetching, Some(Reply::Libraries(vec![]))),
        Step::Finish(Err(DatabaseError::StorageError))
    );
    assert_eq!(get_locations(&mut database, 1, None), Ok(vec!["/m".to_string()]));
}

#[test]
fn get_locations_issues_one_fetch() {
    assert_eq!(
        Library::get_locations(12, FetchState::Start, None),
        Step::Issue(FetchState::Fetching, Statement::SelectLocations { library_id: 12 })
    );
    assert_eq!(
        Library::get_locations(
            12,
            FetchState::Fetching,
            Some(Reply::Locations(vec!["/x".to_string(), "/y".to_string()]))
        ),
        Step::Finish(Ok(vec!["/x".to_string(), "/y".to_string()]))
    );
}

#[test]
fn ids_are_not_handed_out_twice() {
    let mut database = MemoryDatabase::new();
    let movies = library("Movies", MediaType::Movie, &["/m"]);
    assert_eq!(insert(&mut database, &movies, None), Ok(1));
    assert_eq!(delete(&mut database, 1, None), Ok(1));
    assert_eq!(insert(&mut database, &movies, None), Ok(2));
    assert_eq!(insert(&mut database, &movies, None), Ok(3));
    assert_eq!(get_one(&mut database, 1, None), Err(DatabaseError::NotFound));
    assert_eq!(get_all(&mut database, None).len(), 2);
}

#[test]
fn from_row_decodes_the_media_type() {
    assert_eq!(
        Library::from_row(&row(4, "Shows", "tv")),
        Ok(Library {
            id: 4,
            name: "Shows".to_string(),
            locations: vec![],
            media_type: MediaType::Tv,
        })
    );
    assert_eq!(Library::from_row(&row(4, "Shows", "Tv")), Err(DatabaseError::DecodeError));
}
