use serde_json::Value;
use surreal_simple_querybuilder::node_builder::ToNodeBuilder;
use surreal_simple_querybuilder::parser::ModelParser;
use surreal_simple_querybuilder::queries::bindings;
use surreal_simple_querybuilder::queries::create;
use surreal_simple_querybuilder::queries::query;
use surreal_simple_querybuilder::queries::select;
use surreal_simple_querybuilder::types::Equal;
use surreal_simple_querybuilder::types::Fetch;
use surreal_simple_querybuilder::types::From;
use surreal_simple_querybuilder::types::Object;
use surreal_simple_querybuilder::types::Pagination;
use surreal_simple_querybuilder::types::Select;
use surreal_simple_querybuilder::types::SetClause;
use surreal_simple_querybuilder::types::Where;

#[test]
fn pagination_window_renders_limit_and_start() {
    let (q, _) = select("*", "users", Pagination::new(10..35)).unwrap();
    assert_eq!(q, "SELECT * FROM users LIMIT 25 START AT 10");

    let q = query(&(Select("*"), From("users"), Pagination::new(10..35))).unwrap();
    assert_eq!(q, "SELECT * FROM users LIMIT 25 START AT 10");
}

#[test]
fn pagination_from_zero_omits_start_at() {
    let (q, _) = select("*", "users", Pagination::new(0..25)).unwrap();
    assert_eq!(q, "SELECT * FROM users LIMIT 25");
}

#[test]
fn pagination_pages_count_from_zero() {
    let page = Pagination::new_page(1, 20);
    assert_eq!(page.start(), 20);
    assert_eq!(page.limit(), 20);
    let q = query(&page).unwrap();
    assert_eq!(q, "LIMIT 20 START AT 20");
}

#[test]
fn where_equal_renders_and_binds() {
    let param = Where(Equal(("name", Value::from("John"))));
    let (q, params) = select("*", "users", param).unwrap();

    assert_eq!(q, "SELECT * FROM users WHERE name = $name");
    assert_eq!(params.get("name"), Some(&Value::from("John")));
    assert_eq!(params.get("missing"), None);
}

#[test]
fn tuple_order_is_left_to_right() {
    let filter = Object::new().insert("name", Value::from("John"));
    let q = query(&(
        Where(filter),
        Pagination::new(0..10),
        Fetch(["author"]),
    ))
    .unwrap();
    assert_eq!(q, "WHERE name = $name LIMIT 10 FETCH author");

    let filter = Object::new().insert("name", Value::from("John"));
    let q = query(&(
        Fetch(["author"]),
        Where(filter),
        Pagination::new(0..10),
    ))
    .unwrap();
    assert_eq!(q, "FETCH author WHERE name = $name LIMIT 10");
}

#[test]
fn create_set_renders_object_key_order() {
    let set = SetClause(
        Object::new()
            .insert("name", Value::from("John"))
            .insert("age", Value::from(10)),
    );
    let (q, params) = create("User", set).unwrap();

    assert_eq!("CREATE User SET age = $age , name = $name", q);
    assert_eq!(params.get("name"), Some(&Value::from("John")));
    assert_eq!(params.get("age"), Some(&Value::from(10)));

    // The same pairs inserted in the opposite order render identically: the
    // object's iteration order is its key order, not insertion order.
    let set = SetClause(
        Object::new()
            .insert("age", Value::from(10))
            .insert("name", Value::from("John")),
    );
    let (q2, _) = create("User", set).unwrap();
    assert_eq!(q, q2);
}

#[test]
fn object_insert_replaces_existing_keys() {
    let obj = Object::new()
        .insert("age", Value::from(10))
        .insert("age", Value::from(20));
    let b = bindings(obj).unwrap();
    assert_eq!(b.get("age"), Some(&Value::from(20)));
}

#[test]
fn traversal_chain_of_each_length_renders_by_hand() {
    let parser = ModelParser::new();
    let account = parser.parse("Account { name, friends<Account> }").unwrap();
    let schema = account.schema();

    assert_eq!(schema.field("name").unwrap().to_string(), "name");

    let one = schema.traverse("friends", &account).unwrap();
    assert_eq!(one.field("name").unwrap().to_string(), "friends.name");

    let two = one.traverse("friends", &account).unwrap();
    assert_eq!(two.field("name").unwrap().to_string(), "friends.friends.name");

    let three = two.traverse("friends", &account).unwrap();
    assert_eq!(
        three.field("name").unwrap().to_string(),
        "friends.friends.friends.name"
    );
}

#[test]
fn node_builder_helpers_render() {
    assert_eq!("user".with("project"), "user->project");
    assert_eq!("user".from("project"), "user<-project");
    assert_eq!("John".as_named_label("Account"), "Account:John");
    assert_eq!("user".equals("John"), "user = John");
    assert_eq!("account".equals_parameterized(), "account = $account");
    assert_eq!(
        "account->manage->project".as_alias("account_projects"),
        "account->manage->project as account_projects"
    );
    assert_eq!(
        "account->manage->project".filter("name = 'a_cool_project'"),
        "account->manage->(project WHERE name = 'a_cool_project')"
    );
}

#[test]
fn empty_fragments_leave_no_stray_separators() {
    let q = query(&(Select("*"), From("users"), ())).unwrap();
    assert_eq!(q, "SELECT * FROM users");

    let q = query(&Where(Object::new())).unwrap();
    assert_eq!(q, "WHERE");
}
