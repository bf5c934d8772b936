use sql_query_builder as sql;

#[test]
fn postgres_drop_index_joins_every_accumulated_name() {
    let query = sql::DropIndex::new().drop_index("a").drop_index("b").as_string();

    assert_eq!(query, "DROP INDEX a, b");
}

#[test]
fn restricted_drop_index_keeps_only_the_last_name() {
    let query = sql::DropIndex::new_with_dialect(sql::Dialect::Sqlite)
        .drop_index("a")
        .drop_index("b")
        .as_string();

    assert_eq!(query, "DROP INDEX b");
}

#[test]
fn drop_index_accepts_an_if_exists_guard() {
    let query = sql::DropIndex::new().if_exists().drop_index("users_name_idx").as_string();

    assert_eq!(query, "DROP INDEX IF EXISTS users_name_idx");
}

#[test]
fn drop_index_renders_raw_text_around_its_clause() {
    let query = sql::DropIndex::new()
        .raw_before(sql::DropIndexParams::DropIndex, "/* drop the index */")
        .drop_index("users_name_idx")
        .raw_after(sql::DropIndexParams::DropIndex, "CASCADE")
        .as_string();

    assert_eq!(query, "/* drop the index */ DROP INDEX users_name_idx CASCADE");
}

#[test]
fn empty_drop_index_renders_to_the_empty_string() {
    let query = sql::DropIndex::new().as_string();

    assert_eq!(query, "");
}

#[test]
fn duplicate_index_names_are_accumulated_once() {
    let query = sql::DropIndex::new().drop_index("a").drop_index("a").as_string();

    assert_eq!(query, "DROP INDEX a");
}

#[test]
fn sqlite_insert_or_renders_its_keyword() {
    let query = sql::Insert::new_with_dialect(sql::Dialect::Sqlite)
        .insert_or("ABORT INTO users (login)")
        .values("('foo')")
        .as_string();

    assert_eq!(query, "INSERT OR ABORT INTO users (login) VALUES ('foo')");
}

#[test]
fn sqlite_replace_into_renders_its_keyword() {
    let query = sql::Insert::new_with_dialect(sql::Dialect::Sqlite)
        .replace_into("users (login)")
        .values("('foo')")
        .as_string();

    assert_eq!(query, "REPLACE INTO users (login) VALUES ('foo')");
}

#[test]
fn sqlite_default_values_renders_when_no_value_arrived() {
    let query = sql::Insert::new_with_dialect(sql::Dialect::Sqlite)
        .insert_into("users")
        .default_values()
        .as_string();

    assert_eq!(query, "INSERT INTO users DEFAULT VALUES");
}

#[test]
fn accumulated_values_win_over_default_values() {
    let query = sql::Insert::new_with_dialect(sql::Dialect::Sqlite)
        .insert_into("users (login)")
        .default_values()
        .values("('foo')")
        .as_string();

    assert_eq!(query, "INSERT INTO users (login) VALUES ('foo')");
}

#[test]
fn sqlite_clauses_leave_other_dialects_unchanged() {
    let insert_or = sql::Insert::new().insert_or("ABORT INTO users").as_string();
    let replaced = sql::Insert::new().replace_into("users").as_string();
    let defaults = sql::Insert::new().default_values().as_string();

    assert_eq!(insert_or, "");
    assert_eq!(replaced, "");
    assert_eq!(defaults, "");
}

#[test]
fn overriding_is_not_a_sqlite_clause() {
    let query = sql::Insert::new_with_dialect(sql::Dialect::Sqlite)
        .insert_into("users (id)")
        .overriding("SYSTEM VALUE")
        .values("(1)")
        .as_string();

    assert_eq!(query, "INSERT INTO users (id) VALUES (1)");
}
