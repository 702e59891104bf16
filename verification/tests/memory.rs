use dim_catalog::{LibraryRow, MediaType, MemoryDatabase, Reply, Statement};

fn insert_library(name: &str, media_type: MediaType) -> Statement {
    Statement::InsertLibrary { name: name.to_string(), media_type }
}

fn insert_location(location: &str, library_id: i64) -> Statement {
    Statement::InsertLocation { location: location.to_string(), library_id }
}

fn executed(rows_affected: u64) -> Reply {
    Reply::Executed { rows_affected, generated_id: None }
}

#[test]
fn a_new_database_is_empty() {
    let mut database = MemoryDatabase::new();
    assert_eq!(database.respond(&Statement::SelectLibraries), Reply::Libraries(vec![]));
    assert_eq!(
        database.respond(&Statement::SelectLocations { library_id: 1 }),
        Reply::Locations(vec![])
    );
}

#[test]
fn library_rows_get_increasing_ids_from_one() {
    let mut database = MemoryDatabase::new();
    assert_eq!(
        database.respond(&insert_library("A", MediaType::Movie)),
        Reply::Executed { rows_affected: 1, generated_id: Some(1) }
    );
    assert_eq!(
        database.respond(&insert_library("B", MediaType::Episode)),
        Reply::Executed { rows_affected: 1, generated_id: Some(2) }
    );
    assert_eq!(
        database.respond(&Statement::SelectLibraries),
        Reply::Libraries(vec![
            LibraryRow { id: 1, name: "A".to_string(), media_type: "movie".to_string() },
            LibraryRow { id: 2, name: "B".to_string(), media_type: "episode".to_string() },
        ])
    );
    assert_eq!(
        database.respond(&Statement::SelectLibrary { id: 2 }),
        Reply::Libraries(vec![LibraryRow {
            id: 2,
            name: "B".to_string(),
            media_type: "episode".to_string()
        }])
    );
}

#[test]
fn a_location_needs_its_library() {
    let mut database = MemoryDatabase::new();
    assert_eq!(database.respond(&insert_location("/x", 1)), Reply::Failed);
    assert_eq!(
        database.respond(&insert_library("A", MediaType::Movie)),
        Reply::Executed { rows_affected: 1, generated_id: Some(1) }
    );
    assert_eq!(database.respond(&insert_location("/x", 1)), executed(1));
    assert_eq!(database.respond(&insert_location("/y", 2)), Reply::Failed);
    assert_eq!(
        database.respond(&Statement::SelectLocations { library_id: 1 }),
        Reply::Locations(vec!["/x".to_string()])
    );
}

#[test]
fn a_library_with_locations_cannot_be_removed() {
    let mut database = MemoryDatabase::new();
    database.respond(&insert_library("A", MediaType::Movie));
    database.respond(&insert_location("/x", 1));
    database.respond(&insert_location("/y", 1));
    assert_eq!(database.respond(&Statement::DeleteLibrary { id: 1 }), Reply::Failed);
    assert_eq!(database.respond(&Statement::DeleteLocations { library_id: 1 }), executed(2));
    assert_eq!(database.respond(&Statement::DeleteLocations { library_id: 1 }), executed(0));
    assert_eq!(database.respond(&Statement::DeleteLibrary { id: 1 }), executed(1));
    assert_eq!(database.respond(&Statement::DeleteLibrary { id: 1 }), executed(0));
    assert_eq!(database.respond(&Statement::SelectLibraries), Reply::Libraries(vec![]));
}

#[test]
fn a_transaction_is_visible_only_after_commit() {
    let mut database = MemoryDatabase::new();
    assert_eq!(database.respond(&Statement::Begin), Reply::Done);
    database.respond(&insert_library("A", MediaType::Movie));
    database.respond(&insert_location("/x", 1));
    assert_eq!(database.respond(&Statement::Commit), Reply::Done);
    database.release();
    assert_eq!(
        database.respond(&Statement::SelectLocations { library_id: 1 }),
        Reply::Locations(vec!["/x".to_string()])
    );
}

#[test]
fn release_rolls_an_open_transaction_back() {
    let mut database = MemoryDatabase::new();
    database.respond(&insert_library("Kept", MediaType::Tv));
    assert_eq!(database.respond(&Statement::Begin), Reply::Done);
    database.respond(&insert_library("Dropped", MediaType::Movie));
    database.respond(&insert_location("/x", 2));
    database.respond(&Statement::DeleteLibrary { id: 1 });
    database.release();
    assert_eq!(
        database.respond(&Statement::SelectLibraries),
        Reply::Libraries(vec![LibraryRow {
            id: 1,
            name: "Kept".to_string(),
            media_type: "tv".to_string()
        }])
    );
    assert_eq!(
        database.respond(&Statement::SelectLocations { library_id: 2 }),
        Reply::Locations(vec![])
    );
    // The id that the dropped row had is free again.
    assert_eq!(
        database.respond(&insert_library("Next", MediaType::Movie)),
        Reply::Executed { rows_affected: 1, generated_id: Some(2) }
    );
}

#[test]
fn transactions_do_not_nest() {
    let mut database = MemoryDatabase::new();
    assert_eq!(database.respond(&Statement::Commit), Reply::Failed);
    assert_eq!(database.respond(&Statement::Begin), Reply::Done);
    assert_eq!(database.respond(&Statement::Begin), Reply::Failed);
    assert_eq!(database.respond(&Statement::Commit), Reply::Done);
    assert_eq!(database.respond(&Statement::Commit), Reply::Failed);
}

#[test]
fn each_statement_has_its_sql_text() {
    assert_eq!(Statement::Begin.sql(), "BEGIN");
    assert_eq!(Statement::Commit.sql(), "COMMIT");
    assert_eq!(Statement::SelectLibraries.sql(), "SELECT id, name, media_type FROM library");
    assert_eq!(
        Statement::SelectLibrary { id: 1 }.sql(),
        "SELECT id, name, media_type FROM library WHERE id = ?"
    );
    assert_eq!(
        Statement::SelectLocations { library_id: 1 }.sql(),
        "SELECT location FROM indexed_paths WHERE library_id = ?"
    );
    assert_eq!(
        insert_library("A", MediaType::Movie).sql(),
        "INSERT INTO library (name, media_type) VALUES ($1, $2)"
    );
    assert_eq!(
        insert_location("/x", 1).sql(),
        "INSERT INTO indexed_paths (location, library_id) VALUES ($1, $2)"
    );
    assert_eq!(
        Statement::DeleteLocations { library_id: 1 }.sql(),
        "DELETE FROM indexed_paths WHERE library_id = ?"
    );
    assert_eq!(Statement::DeleteLibrary { id: 1 }.sql(), "DELETE FROM library WHERE id = ?");
}
