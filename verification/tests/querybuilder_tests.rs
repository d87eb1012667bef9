use surreal_simple_querybuilder::node_builder::NodeBuilder;
use surreal_simple_querybuilder::node_builder::ToNodeBuilder;
use surreal_simple_querybuilder::parser::ModelParser;
use surreal_simple_querybuilder::querybuilder::QueryBuilder;
use surreal_simple_querybuilder::querybuilder::QueryBuilderObject;

/// For the tests, and as an example: what could be an account in a simple
/// database.
struct Account;

impl QueryBuilderObject for Account {
    fn set_querybuilder_object(mut querybuilder: QueryBuilder) -> QueryBuilder {
        let model = ModelParser::new()
            .parse("Account { handle, password, email }")
            .unwrap();
        let schema = model.schema();
        let a = vec![
            querybuilder.hold(schema.field("handle").unwrap().equals_parameterized()),
            querybuilder.hold(schema.field("password").unwrap().equals_parameterized()),
            querybuilder.hold(schema.field("email").unwrap().equals_parameterized()),
        ];
        querybuilder.set_many(&a)
    }
}

#[test]
fn test_test_create_account_query() {
    let model = ModelParser::new()
        .parse("Account { handle, password, email }")
        .unwrap();
    let schema = model.schema();
    let label = schema.to_string();
    let query = QueryBuilder::new()
        .create(&"handle".as_named_label(&label))
        .set_object::<Account>()
        .build();

    assert_eq!(
        query,
        "CREATE Account:handle SET handle = $handle , password = $password , email = $email"
    );
}

#[test]
fn test_test_account_find_query() {
    let model = ModelParser::new()
        .parse("Account { handle, password, email }")
        .unwrap();
    let schema = model.schema();
    let label = schema.to_string();
    let query = QueryBuilder::new()
        .select("*")
        .from(&label)
        .filter(&schema.field("email").unwrap().equals_parameterized())
        .build();

    assert_eq!(query, "SELECT * FROM Account WHERE email = $email");
}

#[test]
fn test_test_nodebuilder_relation() {
    let s = "Account".with("IS_FRIEND").with("Account:Mark").to_owned();

    assert_eq!("Account->IS_FRIEND->Account:Mark", s);
}

#[test]
fn test_test_nodebuilder_condition() {
    let should_be_friend_with_mark = true;
    let should_be_friend_with_john = false;

    let s = String::new()
        .with("IS_FRIEND")
        .if_then(should_be_friend_with_mark, |s| s.with("Account:Mark"))
        .if_then(should_be_friend_with_john, |s| s.with("Account:John"))
        .to_owned();

    assert_eq!("->IS_FRIEND->Account:Mark", s);
}

#[test]
fn test_test_as_named_label() {
    let user_handle = "John";
    let label = user_handle.as_named_label("Account");

    assert_eq!(label, "Account:John");
}

#[test]
fn querybuilder_test_create_account_query() {
    let model = ModelParser::new()
        .parse("Account { handle, password, email, friends<Account> }")
        .unwrap();
    let account = model.schema();
    let query = QueryBuilder::new()
        .create(&account.field("handle").unwrap().as_named_label(&account.to_string()))
        .set_object::<Account>()
        .build();

    assert_eq!(
        query,
        "CREATE Account:handle SET handle = $handle , password = $password , email = $email"
    );
}

#[test]
fn querybuilder_test_account_find_query() {
    let model = ModelParser::new()
        .parse("Account { handle, password, email, friends<Account> }")
        .unwrap();
    let account = model.schema();
    let query = QueryBuilder::new()
        .select("*")
        .from(&account.to_string())
        .filter(&account.field("email").unwrap().equals_parameterized())
        .build();

    assert_eq!(query, "SELECT * FROM Account WHERE email = $email");
}

#[test]
fn querybuilder_test_nodebuilder_relation() {
    let s = "Account".with("IS_FRIEND").with("Account:Mark").to_owned();

    assert_eq!("Account->IS_FRIEND->Account:Mark", s);
}

#[test]
fn querybuilder_test_nodebuilder_condition() {
    let should_be_friend_with_mark = true;
    let should_be_friend_with_john = false;

    let s = String::new()
        .with("IS_FRIEND")
        .if_then(should_be_friend_with_mark, |s| s.with("Account:Mark"))
        .if_then(should_be_friend_with_john, |s| s.with("Account:John"))
        .to_owned();

    assert_eq!("->IS_FRIEND->Account:Mark", s);
}

#[test]
fn querybuilder_test_as_named_label() {
    let user_handle = "John";
    let label = user_handle.as_named_label("Account");

    assert_eq!(label, "Account:John");
}

#[test]
fn test_model_self_reference() {
    let model = ModelParser::new()
        .parse("Account { handle, password, email, friends<Account> }")
        .unwrap();
    let account = model.schema();

    assert_eq!("friends", account.field("friends").unwrap().to_string());
    assert_eq!("Account", account.traverse("friends", &model).unwrap().to_string());
    assert_eq!(
        "friends.handle",
        account
            .traverse("friends", &model)
            .unwrap()
            .field("handle")
            .unwrap()
            .to_string()
    );
}

#[test]
fn builder_methods_render_their_clauses() {
    assert_eq!(QueryBuilder::new().create("Person:ee").build(), "CREATE Person:ee");
    assert_eq!(QueryBuilder::new().update("Person:ee").build(), "UPDATE Person:ee");
    assert_eq!(QueryBuilder::new().select("ee:Person").build(), "SELECT ee:Person");
    assert_eq!(QueryBuilder::new().delete("ee:Person").build(), "DELETE ee:Person");
    assert_eq!(
        QueryBuilder::new().relate("user:John->likes->user:Mark").build(),
        "RELATE user:John->likes->user:Mark"
    );
    assert_eq!(
        QueryBuilder::new().content("{ creation_time: time::now() }").build(),
        "CONTENT { creation_time: time::now() }"
    );
    assert_eq!(QueryBuilder::new().from("Person").build(), "FROM Person");
    assert_eq!(
        QueryBuilder::new().select_many(&["ee:Person", "o:Order"]).build(),
        "SELECT ee:Person , o:Order"
    );
    assert_eq!(QueryBuilder::new().also("ee").build(), ", ee");
    assert_eq!(QueryBuilder::new().filter("handle = ?1").build(), "WHERE handle = ?1");
    assert_eq!(QueryBuilder::new().and_where("handle = ?1").build(), "WHERE handle = ?1");
    assert_eq!(QueryBuilder::new().or("handle = ?1").build(), "OR handle = ?1");
    assert_eq!(QueryBuilder::new().and("handle = ?1").build(), "AND handle = ?1");
    assert_eq!(QueryBuilder::new().set("handle = ?1").build(), "SET handle = ?1");
    assert_eq!(QueryBuilder::new().fetch("author").build(), "FETCH author");
    assert_eq!(
        QueryBuilder::new().fetch_many(&["author", "projects"]).build(),
        "FETCH author , projects"
    );
    assert_eq!(QueryBuilder::new().group_by("author").build(), "GROUP BY author");
    assert_eq!(
        QueryBuilder::new().group_by_many(&["author", "projects"]).build(),
        "GROUP BY author , projects"
    );
    assert_eq!(QueryBuilder::new().order_by_asc("author").build(), "ORDER BY author ASC");
    assert_eq!(
        QueryBuilder::new().order_by_asc_many(&["author", "projects"]).build(),
        "ORDER BY author ASC , projects ASC"
    );
    assert_eq!(QueryBuilder::new().order_by_desc("author").build(), "ORDER BY author DESC");
    assert_eq!(
        QueryBuilder::new().order_by_desc_many(&["author", "projects"]).build(),
        "ORDER BY author DESC , projects DESC"
    );
    assert_eq!(QueryBuilder::new().raw("foo bar").build(), "foo bar");
    assert_eq!(QueryBuilder::new().limit("10").build(), "LIMIT 10");
    assert_eq!(QueryBuilder::new().start_at("10").build(), "START AT 10");
}

#[test]
fn builder_if_then_skips_and_applies() {
    let query = QueryBuilder::new()
        .select_many(&["1", "2"])
        .if_then(false, |query| {
            query.select_many(&["3", "4"]).if_then(true, |query| query.select_many(&["5", "6"]))
        })
        .if_then(true, |query| query.select_many(&["7", "8"]))
        .build();

    assert_eq!(query, "SELECT 1 , 2 SELECT 7 , 8");
}

#[test]
fn builder_and_group_wraps_in_parentheses() {
    let query = QueryBuilder::new()
        .select("*")
        .from("user")
        .filter("name contains 'John'")
        .and_group("name contains 'Doe'", |q| q.or("name contains 'Eod'"))
        .build();

    assert_eq!(
        query,
        "SELECT * FROM user WHERE name contains 'John' AND ( name contains 'Doe' OR name contains 'Eod' )"
    );
}

#[test]
fn builder_commas_splices_with_commas() {
    let query = QueryBuilder::new().commas(|query| query.raw("foo").raw("bar")).build();

    assert_eq!(query, "foo , bar");
}

#[test]
fn builder_param_replaces_placeholders() {
    let query = QueryBuilder::new()
        .select("{{field}}")
        .from("Account")
        .param("{{field}}", "id")
        .build();

    assert_eq!("SELECT id FROM Account", query);
}

#[test]
fn builder_empty_segments_are_dropped() {
    let query = QueryBuilder::new().select("").from("Person").build();

    assert_eq!(query, "SELECT FROM Person");
}
