use serde_json::Value;
use surreal_simple_querybuilder::queries::bindings;
use surreal_simple_querybuilder::queries::create;
use surreal_simple_querybuilder::queries::delete;
use surreal_simple_querybuilder::queries::query;
use surreal_simple_querybuilder::queries::select;
use surreal_simple_querybuilder::queries::update;
use surreal_simple_querybuilder::types::And;
use surreal_simple_querybuilder::types::Bind;
use surreal_simple_querybuilder::types::Cmp;
use surreal_simple_querybuilder::types::Equal;
use surreal_simple_querybuilder::types::Fetch;
use surreal_simple_querybuilder::types::From;
use surreal_simple_querybuilder::types::Greater;
use surreal_simple_querybuilder::types::IntoOptionalInjecterExt;
use surreal_simple_querybuilder::types::Limit;
use surreal_simple_querybuilder::types::Lower;
use surreal_simple_querybuilder::types::Object;
use surreal_simple_querybuilder::types::Or;
use surreal_simple_querybuilder::types::OrderBy;
use surreal_simple_querybuilder::types::Pagination;
use surreal_simple_querybuilder::types::PlusEqual;
use surreal_simple_querybuilder::types::Select;
use surreal_simple_querybuilder::types::SetClause;
use surreal_simple_querybuilder::types::Sql;
use surreal_simple_querybuilder::types::Where;

#[test]
fn test_create() {
    let set = SetClause(
        Object::new()
            .insert("name", Value::from("John"))
            .insert("age", Value::from(10)),
    );
    let (query, params) = create("User", set).unwrap();

    assert_eq!("CREATE User SET age = $age , name = $name", query);

    assert_eq!(params.get("name"), Some(&Value::from("John".to_owned())));
    assert_eq!(params.get("age"), Some(&Value::from(10)));
}

#[test]
fn test_update() {
    let set = SetClause(
        Object::new()
            .insert("name", Value::from("John"))
            .insert("age", Value::from(10)),
    );
    let (query, params) = update("User", set).unwrap();

    assert_eq!("UPDATE User SET age = $age , name = $name", query);
    assert_eq!(params.get("name"), Some(&Value::from("John".to_owned())));
    assert_eq!(params.get("age"), Some(&Value::from(10)));
}

#[test]
fn select_test_select() {
    let filter = Object::new()
        .insert("name", Value::from("John"))
        .insert("age", Value::from(10));
    let pagination = Pagination::new(10..25);
    let fetch = Fetch(["friends", "articles"]);
    let components = (Where(filter), pagination, fetch);

    let (query, params) = select("*", "User", components).unwrap();

    assert_eq!(
        "SELECT * FROM User WHERE age = $age AND name = $name LIMIT 15 START AT 10 FETCH friends , articles",
        query
    );

    assert_eq!(params.get("name"), Some(&Value::from("John".to_owned())));
    assert_eq!(params.get("age"), Some(&Value::from(10)));

    let (query, params) = select(
        "*",
        "User",
        Where((
            Or(Object::new().insert("one", Value::from(1)).insert("two", Value::from(2))),
            ("three", Value::from(3)),
        )),
    )
    .unwrap();

    assert_eq!(
        "SELECT * FROM User WHERE one = $one OR two = $two AND three = $three",
        query
    );
    assert_eq!(params.get("one"), Some(&Value::from(1)));
    assert_eq!(params.get("two"), Some(&Value::from(2)));
    assert_eq!(params.get("three"), Some(&Value::from(3)));
}

#[test]
fn query_test_select() {
    let q = query(&Select("User")).unwrap();
    assert_eq!("SELECT User", q);
}

#[test]
fn test_query_fn() {
    let q = query(&Select("User")).unwrap();
    assert_eq!("SELECT User", q);

    let q = query(&(
        Select("User"),
        Where(Object::new().insert("name", Value::from("John"))),
    ))
    .unwrap();
    assert_eq!("SELECT User WHERE name = $name", q);
}

#[test]
fn test_select_fn() {
    let (q, _bindings) = select("*", "User", ()).unwrap();
    assert_eq!("SELECT * FROM User", q);

    let (q, _bindings) = select(
        "*",
        "User",
        Where(Object::new().insert("name", Value::from("John"))),
    )
    .unwrap();
    assert_eq!("SELECT * FROM User WHERE name = $name", q);

    let filter = Where((
        Object::new().insert("name", Value::from("John")),
        Greater(Object::new().insert("age", Value::from(10))),
    ));
    let (q, _bindings) = select("*", "User", filter).unwrap();
    assert_eq!("SELECT * FROM User WHERE name = $name AND age > $age", q);
}

#[test]
fn test_queries_equal_tuple_str() {
    let param = Where(("col", Sql("value")));
    let (query, _) = select("*", "users", param).unwrap();

    assert_eq!(query, "SELECT * FROM users WHERE col = value");
}

#[test]
fn test_injecters_doccomment() {
    assert_eq!(
        query(&(Select("*"), From("users"), Where("id = 5"))).unwrap(),
        "SELECT * FROM users WHERE id = 5"
    );

    let injecters = (
        Select("*"),
        From("users"),
        Where(And((("id", Value::from(5)), ("name", Value::from("john"))))),
    );

    let query_string = query(&injecters).unwrap();
    let query_bindings = bindings(injecters).unwrap();

    assert_eq!(
        query_string,
        "SELECT * FROM users WHERE id = $id AND name = $name"
    );
    assert_eq!(query_bindings.get("id"), Some(&Value::from(5)));
    assert_eq!(query_bindings.get("name"), Some(&Value::from("john")));
}

#[test]
fn delete_renders_filter_and_bindings() {
    let filter = Where(
        Object::new()
            .insert("name", Value::from("John"))
            .insert("age", Value::from(10)),
    );
    let (query, params) = delete("User", filter).unwrap();

    assert_eq!("DELETE User WHERE age = $age AND name = $name", query);
    assert_eq!(params.get("name"), Some(&Value::from("John")));
    assert_eq!(params.get("age"), Some(&Value::from(10)));

    let (query, params) = delete("User:john", ()).unwrap();

    assert_eq!("DELETE User:john", query);
    assert!(params.is_empty());
}

#[test]
fn equal_binds_its_parameter() {
    let value = 10;
    let param = Where(Equal(("id", Value::from(value))));
    let (query, params) = select("*", "users", param).unwrap();

    assert_eq!(query, "SELECT * FROM users WHERE id = $id");
    assert_eq!(params.get("id"), Some(&Value::from(10)));
}

#[test]
fn comparison_operators_render() {
    let (q, params) = select("*", "users", Where(Greater(("age", Value::from(10))))).unwrap();
    assert_eq!(q, "SELECT * FROM users WHERE age > $age");
    assert_eq!(params.get("age"), Some(&Value::from(10)));

    let (q, _) = select("*", "users", Where(Lower(("age", Value::from(10))))).unwrap();
    assert_eq!(q, "SELECT * FROM users WHERE age < $age");

    let (q, _) = select("*", "users", Where(Cmp(">=", ("age", Value::from(10))))).unwrap();
    assert_eq!(q, "SELECT * FROM users WHERE age >= $age");
}

#[test]
fn plus_equal_renders_increment() {
    let param = SetClause(PlusEqual(("read_count", Value::from(1))));
    let (query, params) = update("articles", param).unwrap();

    assert_eq!(query, "UPDATE articles SET read_count += $read_count");
    assert_eq!(params.get("read_count"), Some(&Value::from(1)));
}

#[test]
fn set_mixes_assignments_and_raw_sql() {
    let param = SetClause((
        PlusEqual(("read_count", Value::from(1))),
        ("last_read", Sql("now()")),
    ));
    let (query, params) = update("articles", param).unwrap();

    assert_eq!(
        query,
        "UPDATE articles SET read_count += $read_count , last_read = now()"
    );
    assert_eq!(params.get("read_count"), Some(&Value::from(1)));
    assert_eq!(params.get("last_read"), None);
}

#[test]
fn bind_adds_bindings_without_clauses() {
    let param = Bind(("my_id", Value::from(5)));
    let (query, bindings) = select("*", "users WHERE id = $my_id", param).unwrap();

    assert_eq!(query, "SELECT * FROM users WHERE id = $my_id");
    assert_eq!(bindings.get("my_id"), Some(&Value::from(5)));

    let param = Bind(
        Object::new()
            .insert("my_id", Value::from(5))
            .insert("created_at", Value::from(123456)),
    );
    let (query, bindings) = select(
        "*",
        "users WHERE id = $my_id AND created_at > $created_at",
        param,
    )
    .unwrap();

    assert_eq!(
        query,
        "SELECT * FROM users WHERE id = $my_id AND created_at > $created_at"
    );
    assert_eq!(bindings.get("my_id"), Some(&Value::from(5)));
    assert_eq!(bindings.get("created_at"), Some(&Value::from(123456)));
}

#[test]
fn later_bindings_override_earlier_ones() {
    let b = bindings((("id", Value::from(1)), ("id", Value::from(2)))).unwrap();
    assert_eq!(b.get("id"), Some(&Value::from(2)));
}

#[test]
fn optional_fragments_compose_as_no_ops() {
    let fetch = Fetch(["author"]).when(false);
    let (q, _) = select("*", "Book", fetch).unwrap();
    assert_eq!(q, "SELECT * FROM Book");

    let fetch = Fetch(["author"]).when(true);
    let (q, _) = select("*", "Book", fetch).unwrap();
    assert_eq!(q, "SELECT * FROM Book FETCH author");
}

#[test]
fn vector_of_fragments_composes_in_order() {
    let fragments = vec![Limit("10"), Limit("20")];
    let q = query(&fragments).unwrap();
    assert_eq!(q, "LIMIT 10 LIMIT 20");
}

#[test]
fn where_extends_with_further_fragments() {
    let filter = Where(("id", Value::from(5))).extend(("name", Value::from("john")));
    let (q, params) = select("*", "users", filter).unwrap();
    assert_eq!(q, "SELECT * FROM users WHERE id = $id AND name = $name");
    assert_eq!(params.get("name"), Some(&Value::from("john")));

    let filter = Where(("id", Value::from(5))).extend_on(false, ("name", Value::from("john")));
    let (q, params) = select("*", "users", filter).unwrap();
    assert_eq!(q, "SELECT * FROM users WHERE id = $id");
    assert_eq!(params.get("name"), None);
}

#[test]
fn order_by_fragments_render_direction() {
    let q = query(&OrderBy::desc("created_at")).unwrap();
    assert_eq!(q, "ORDER BY created_at DESC");

    let q = query(&OrderBy::asc("created_at")).unwrap();
    assert_eq!(q, "ORDER BY created_at ASC");
}

#[test]
fn or_fragment_prefixes_and_joins() {
    let filter = Where("id = 5");
    let q = query(&(filter, Or("id = 10"))).unwrap();
    assert_eq!(q, "WHERE id = 5 OR id = 10");

    let filter = Where(Or((
        ("id", Sql("5")),
        ("id", Sql("10")),
        ("id", Sql("15")),
    )));
    let q = query(&filter).unwrap();
    assert_eq!(q, "WHERE id = 5 OR id = 10 OR id = 15");
}

#[test]
fn and_fragment_prefixes_and_joins() {
    let filter = Where("id = 5");
    let q = query(&(filter, And("name = 'john'"))).unwrap();
    assert_eq!(q, "WHERE id = 5 AND name = 'john'");

    let filter = Where(And((
        ("id", Sql("5")),
        ("name", Sql("'john'")),
        ("role", Sql("'premium'")),
    )));
    let q = query(&filter).unwrap();
    assert_eq!(q, "WHERE id = 5 AND name = 'john' AND role = 'premium'");
}

#[test]
fn numeric_limit_renders_in_decimal() {
    let q = query(&Limit(10u64)).unwrap();
    assert_eq!(q, "LIMIT 10");
    let q = query(&Limit(0u64)).unwrap();
    assert_eq!(q, "LIMIT 0");
    let q = query(&Limit(18446744073709551615u64)).unwrap();
    assert_eq!(q, "LIMIT 18446744073709551615");
}
