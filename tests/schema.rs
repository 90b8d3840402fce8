use daystore::schema::{
    diary_rows_to_delete, migration_statements, needs_diary_upgrade, table_declarations, DiaryRow,
    DIARY_DATE_INDEX, DIARY_DEFINITION_QUERY, DIARY_DELETE_ROW, DIARY_ROWS_QUERY,
};
use sqlx::{Connection, SqliteConnection};

fn row(id: i64, date: &str, updated_at: &str) -> DiaryRow {
    DiaryRow { id, date: date.to_string(), updated_at: updated_at.to_string() }
}

const LEGACY_DIARY: &str = "CREATE TABLE diary_entries (id INTEGER PRIMARY KEY AUTOINCREMENT, date DATE NOT NULL UNIQUE, title TEXT, content TEXT NOT NULL, mood INTEGER, images TEXT, created_at DATETIME DEFAULT CURRENT_TIMESTAMP, updated_at DATETIME DEFAULT CURRENT_TIMESTAMP)";

async fn migrate(conn: &mut SqliteConnection) {
    let live: Option<(String,)> =
        sqlx::query_as(DIARY_DEFINITION_QUERY).fetch_optional(&mut *conn).await.unwrap();
    let live = live.map(|(s,)| s);
    for stmt in migration_statements(&live) {
        sqlx::query(stmt).execute(&mut *conn).await.unwrap();
    }
    let rows: Vec<(i64, String, String)> =
        sqlx::query_as(DIARY_ROWS_QUERY).fetch_all(&mut *conn).await.unwrap();
    let rows: Vec<DiaryRow> =
        rows.into_iter().map(|(id, date, updated_at)| DiaryRow { id, date, updated_at }).collect();
    for id in diary_rows_to_delete(&rows) {
        sqlx::query(DIARY_DELETE_ROW).bind(id).execute(&mut *conn).await.unwrap();
    }
    sqlx::query(DIARY_DATE_INDEX).execute(&mut *conn).await.unwrap();
}

async fn schema_snapshot(conn: &mut SqliteConnection) -> Vec<(String, String, Option<String>)> {
    sqlx::query_as("SELECT type, name, sql FROM sqlite_master ORDER BY type, name")
        .fetch_all(&mut *conn)
        .await
        .unwrap()
}

async fn diary_rows(conn: &mut SqliteConnection) -> Vec<(i64, String, String)> {
    sqlx::query_as("SELECT id, date, updated_at FROM diary_entries ORDER BY id")
        .fetch_all(&mut *conn)
        .await
        .unwrap()
}

fn runtime() -> tokio::runtime::Runtime {
    tokio::runtime::Runtime::new().unwrap()
}

#[test]
fn dedup_keeps_latest_update() {
    let rows = vec![
        row(1, "2024-01-01", "2024-01-01 08:00:00"),
        row(2, "2024-01-01", "2024-01-01 21:30:00"),
        row(3, "2024-01-02", "2024-01-02 09:00:00"),
    ];
    assert_eq!(diary_rows_to_delete(&rows), vec![1]);
}

#[test]
fn dedup_tie_keeps_highest_id() {
    let rows = vec![
        row(4, "2024-03-03", "2024-03-03 10:00:00"),
        row(9, "2024-03-03", "2024-03-03 10:00:00"),
        row(6, "2024-03-03", "2024-03-03 10:00:00"),
    ];
    assert_eq!(diary_rows_to_delete(&rows), vec![4, 6]);
}

#[test]
fn dedup_compares_text_bytewise() {
    // a proper prefix sorts first
    let rows = vec![row(1, "d", "2024-01-01 10:00"), row(2, "d", "2024-01-01 10:00:00")];
    assert_eq!(diary_rows_to_delete(&rows), vec![1]);
    assert!(diary_rows_to_delete(&Vec::new()).is_empty());
}

#[test]
fn dedup_second_pass_deletes_nothing() {
    let rows = vec![
        row(1, "2024-01-01", "b"),
        row(2, "2024-01-01", "a"),
        row(3, "2024-01-02", "a"),
        row(4, "2024-01-02", "c"),
    ];
    let deleted = diary_rows_to_delete(&rows);
    assert_eq!(deleted, vec![2, 3]);
    let kept: Vec<DiaryRow> = rows.into_iter().filter(|r| !deleted.contains(&r.id)).collect();
    assert!(diary_rows_to_delete(&kept).is_empty());
}

#[test]
fn legacy_definition_needs_upgrade() {
    assert!(needs_diary_upgrade(&Some(LEGACY_DIARY.to_string())));
    assert!(!needs_diary_upgrade(&Some(table_declarations()[1].to_string())));
    assert!(!needs_diary_upgrade(&None));
    assert_eq!(migration_statements(&None).len(), 4);
    assert_eq!(migration_statements(&Some(LEGACY_DIARY.to_string())).len(), 8);
}

#[test]
fn migration_twice_gives_same_schema() {
    runtime().block_on(async {
        let mut conn = SqliteConnection::connect("sqlite::memory:").await.unwrap();
        sqlx::query(LEGACY_DIARY).execute(&mut conn).await.unwrap();
        sqlx::query("INSERT INTO diary_entries (id, date, content, updated_at) VALUES (1, '2024-01-01', 'x', '2024-01-01 10:00:00')")
            .execute(&mut conn)
            .await
            .unwrap();
        migrate(&mut conn).await;
        let first = schema_snapshot(&mut conn).await;
        let rows_first = diary_rows(&mut conn).await;
        migrate(&mut conn).await;
        assert_eq!(schema_snapshot(&mut conn).await, first);
        assert_eq!(diary_rows(&mut conn).await, rows_first);
        let live: (String,) = sqlx::query_as(DIARY_DEFINITION_QUERY).fetch_one(&mut conn).await.unwrap();
        assert!(!needs_diary_upgrade(&Some(live.0)));
    });
}

#[test]
fn migration_deduplicates_stored_rows() {
    runtime().block_on(async {
        let mut conn = SqliteConnection::connect("sqlite::memory:").await.unwrap();
        sqlx::query(table_declarations()[1]).execute(&mut conn).await.unwrap();
        for (id, upd) in [(1, "2024-01-01 08:00:00"), (2, "2024-01-01 22:00:00")] {
            sqlx::query("INSERT INTO diary_entries (id, date, content, updated_at) VALUES (?, '2024-01-01', 'x', ?)")
                .bind(id)
                .bind(upd)
                .execute(&mut conn)
                .await
                .unwrap();
        }
        migrate(&mut conn).await;
        assert_eq!(
            diary_rows(&mut conn).await,
            vec![(2, "2024-01-01".to_string(), "2024-01-01 22:00:00".to_string())]
        );
    });
}

#[test]
fn unique_date_index_rejects_second_row() {
    runtime().block_on(async {
        let mut conn = SqliteConnection::connect("sqlite::memory:").await.unwrap();
        migrate(&mut conn).await;
        sqlx::query("INSERT INTO diary_entries (date, content) VALUES ('2024-05-05', 'first')")
            .execute(&mut conn)
            .await
            .unwrap();
        let second = sqlx::query("INSERT INTO diary_entries (date, content) VALUES ('2024-05-05', 'second')")
            .execute(&mut conn)
            .await;
        assert!(second.is_err());
        sqlx::query("INSERT OR REPLACE INTO diary_entries (date, content) VALUES ('2024-05-05', 'third')")
            .execute(&mut conn)
            .await
            .unwrap();
        let contents: Vec<(String,)> =
            sqlx::query_as("SELECT content FROM diary_entries").fetch_all(&mut conn).await.unwrap();
        assert_eq!(contents, vec![("third".to_string(),)]);
    });
}
