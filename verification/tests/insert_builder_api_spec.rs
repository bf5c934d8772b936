use sql_query_builder as sql;

#[test]
fn method_as_string_should_convert_the_current_state_into_string() {
    let query = sql::Insert::new().as_string();

    assert_eq!(query, "");
}

#[test]
fn method_new_should_initialize_as_empty_string() {
    let query = sql::Insert::new().as_string();

    assert_eq!(query, "");
}

#[test]
fn method_insert_into_should_add_a_insert_into_clause() {
    let query = sql::Insert::new().insert_into("users").as_string();

    assert_eq!(query, "INSERT INTO users");
}

#[test]
fn method_insert_into_should_override_value_on_consecutive_calls() {
    let query = sql::Insert::new().insert_into("users").insert_into("orders").as_string();

    assert_eq!(query, "INSERT INTO orders");
}

#[test]
fn method_raw_before_should_add_raw_sql_before_insert_into_clause() {
    let raw_sql = "/* insert into users */";
    let query = sql::Insert::new()
        .raw_before(sql::InsertClause::InsertInto, raw_sql)
        .insert_into("users")
        .as_string();

    assert_eq!(query, "/* insert into users */ INSERT INTO users");
}

#[test]
fn method_raw_after_should_add_raw_sql_after_insert_into_clause() {
    let raw_sql = "values ('foo')";
    let query = sql::Insert::new()
        .insert_into("users (name)")
        .raw_after(sql::InsertClause::InsertInto, raw_sql)
        .as_string();

    assert_eq!(query, "INSERT INTO users (name) values ('foo')");
}

#[test]
fn method_values_should_add_a_values_clause() {
    let query = sql::Insert::new().values("('foo', 'Foo')").as_string();

    assert_eq!(query, "VALUES ('foo', 'Foo')");
}

#[test]
fn method_values_should_accumulate_values_on_consecutive_calls() {
    let query = sql::Insert::new().values("('foo', 'Foo')").values("('bar', 'Bar')").as_string();

    assert_eq!(query, "VALUES ('foo', 'Foo'), ('bar', 'Bar')");
}

#[test]
fn method_raw_before_should_add_raw_sql_before_values_clause() {
    let raw_sql = "insert into users (login, name)";
    let query = sql::Insert::new()
        .raw_before(sql::InsertClause::Values, raw_sql)
        .values("('foo', 'Foo')")
        .as_string();

    assert_eq!(query, "insert into users (login, name) VALUES ('foo', 'Foo')");
}

#[test]
fn method_raw_after_should_add_raw_sql_after_values_clause() {
    let raw_sql = ", ('foo', 'Foo')";
    let query = sql::Insert::new()
        .values("('baz', 'Baz')")
        .raw_after(sql::InsertClause::Values, raw_sql)
        .as_string();

    assert_eq!(query, "VALUES ('baz', 'Baz') , ('foo', 'Foo')");
}

#[test]
fn clause_values_should_be_after_insert_into_clause() {
    let query = sql::Insert::new()
        .values("('bar', 'Bar')")
        .insert_into("users (login, name)")
        .as_string();

    assert_eq!(query, "INSERT INTO users (login, name) VALUES ('bar', 'Bar')");
}
