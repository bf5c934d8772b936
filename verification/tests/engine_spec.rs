use sql_query_builder as sql;
use std::rc::Rc;

#[test]
fn appending_the_same_value_twice_renders_as_appending_it_once() {
    let once = sql::Insert::new().insert_into("users").values("('foo')").as_string();
    let twice = sql::Insert::new().insert_into("users").values("('foo')").values("('foo')").as_string();

    assert_eq!(once, twice);
    assert_eq!(twice, "INSERT INTO users VALUES ('foo')");
}

#[test]
fn distinct_values_survive_in_call_order() {
    let query = sql::Insert::new().values("('b')").values("('a')").values("('c')").as_string();

    assert_eq!(query, "VALUES ('b'), ('a'), ('c')");
}

#[test]
fn builder_call_order_does_not_change_clause_order() {
    let a = sql::Insert::new().values("('a')").insert_into("t").as_string();
    let b = sql::Insert::new().insert_into("t").values("('a')").as_string();

    assert_eq!(a, b);
    assert_eq!(a, "INSERT INTO t VALUES ('a')");
}

#[test]
fn empty_statement_renders_to_the_empty_string_in_both_modes() {
    let insert = sql::Insert::new();

    assert_eq!(insert.render_one_line(), "");
    assert_eq!(insert.render_multi_line(), "");
    assert_eq!(insert.as_string(), "");
}

#[test]
fn rendering_twice_yields_byte_identical_output() {
    let insert = sql::Insert::new()
        .insert_into("users (login)")
        .values("('foo')")
        .on_conflict("DO NOTHING");

    assert_eq!(insert.as_string(), insert.as_string());
    assert_eq!(insert.render_multi_line(), insert.render_multi_line());
}

#[test]
fn injection_around_an_empty_clause_leaves_no_stray_separators() {
    let query = sql::Insert::new()
        .raw_before(sql::InsertClause::Values, "insert into users (login)")
        .as_string();

    assert_eq!(query, "insert into users (login)");
}

#[test]
fn whitespace_around_a_value_is_trimmed_before_rendering() {
    let padded = sql::Insert::new().insert_into("  users  ").as_string();
    let plain = sql::Insert::new().insert_into("users").as_string();

    assert_eq!(padded, plain);
    assert_eq!(plain, "INSERT INTO users");
}

#[test]
fn all_whitespace_values_contribute_nothing() {
    let query = sql::Insert::new().values("   ").as_string();

    assert_eq!(query, "");
}

#[test]
fn raw_fragments_render_first_and_deduplicate() {
    let raw_sql = "insert into users (login, name)";
    let query = sql::Insert::new().raw(raw_sql).raw(raw_sql).values("('foo', 'Foo')").as_string();

    assert_eq!(query, "insert into users (login, name) VALUES ('foo', 'Foo')");
}

#[test]
fn one_line_rendering_collapses_whitespace_runs() {
    let query = sql::Insert::new().raw("line one\n\n\tline two").render_one_line();

    assert_eq!(query, "line one line two");
}

#[test]
fn overriding_clause_renders_between_insert_into_and_values() {
    let query = sql::Insert::new()
        .insert_into("users (id, login)")
        .overriding("SYSTEM VALUE")
        .values("(1, 'foo')")
        .as_string();

    assert_eq!(query, "INSERT INTO users (id, login) OVERRIDING SYSTEM VALUE VALUES (1, 'foo')");
}

#[test]
fn on_conflict_clause_renders_after_values() {
    let query = sql::Insert::new()
        .insert_into("users (login)")
        .values("('foo')")
        .on_conflict("DO NOTHING")
        .as_string();

    assert_eq!(query, "INSERT INTO users (login) VALUES ('foo') ON CONFLICT DO NOTHING");
}

#[test]
fn returning_clause_accumulates_and_renders_last() {
    let query = sql::Insert::new()
        .insert_into("users (login)")
        .values("('foo')")
        .returning("id")
        .returning("login")
        .as_string();

    assert_eq!(query, "INSERT INTO users (login) VALUES ('foo') RETURNING id, login");
}

#[test]
fn returning_is_not_available_in_the_baseline_dialect() {
    let query = sql::Insert::new_with_dialect(sql::Dialect::Ansi)
        .insert_into("users (login)")
        .values("('foo')")
        .returning("id")
        .as_string();

    assert_eq!(query, "INSERT INTO users (login) VALUES ('foo')");
}

#[test]
fn nested_select_renders_after_insert_into_on_one_line() {
    let query = sql::Insert::new()
        .insert_into("users (login, name)")
        .select(
            sql::Select::new().select("login, name").from("users_bk").where_clause("active = true"),
        )
        .as_string();

    assert_eq!(query, "INSERT INTO users (login, name) SELECT login, name FROM users_bk WHERE active = true");
}

#[test]
fn nested_select_is_indented_one_level_in_multi_line_mode() {
    let query = sql::Insert::new()
        .insert_into("users (login, name)")
        .select(
            sql::Select::new().select("login, name").from("users_bk").where_clause("active = true"),
        )
        .render_multi_line();

    assert_eq!(
        query,
        "INSERT INTO users (login, name)\n  SELECT login, name\n  FROM users_bk\n  WHERE active = true"
    );
}

#[test]
fn with_clause_renders_first_on_one_line() {
    let active_users = Rc::new(sql::Select::new().select("*").from("users_bk"));
    let query = sql::Insert::new().with("active_users", active_users).insert_into("users").as_string();

    assert_eq!(query, "WITH active_users AS (SELECT * FROM users_bk) INSERT INTO users");
}

#[test]
fn with_clause_indents_the_sub_statement_in_multi_line_mode() {
    let active_users = Rc::new(sql::Select::new().select("*").from("users_bk"));
    let query = sql::Insert::new()
        .with("active_users", active_users)
        .insert_into("users")
        .render_multi_line();

    assert_eq!(
        query,
        "WITH active_users AS (\n  SELECT *\n  FROM users_bk\n)\nINSERT INTO users"
    );
}

#[test]
fn the_same_sub_statement_can_serve_two_parents() {
    let active_users = Rc::new(sql::Select::new().select("*").from("users_bk"));
    let first = sql::Insert::new()
        .with("active_users", Rc::clone(&active_users))
        .insert_into("users")
        .as_string();
    let second = sql::Insert::new()
        .with("active_users", active_users)
        .insert_into("audit")
        .as_string();

    assert_eq!(first, "WITH active_users AS (SELECT * FROM users_bk) INSERT INTO users");
    assert_eq!(second, "WITH active_users AS (SELECT * FROM users_bk) INSERT INTO audit");
}

#[test]
fn select_builder_joins_where_conditions_with_and() {
    let query = sql::Select::new()
        .select("id")
        .from("users")
        .where_clause("login = 'foo'")
        .where_clause("active = true")
        .as_string();

    assert_eq!(query, "SELECT id FROM users WHERE login = 'foo' AND active = true");
}
