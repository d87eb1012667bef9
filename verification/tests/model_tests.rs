use serde_json::Value;
use surreal_simple_querybuilder::model::OriginHolder;
use surreal_simple_querybuilder::model::SchemaField;
use surreal_simple_querybuilder::parser::ModelParser;
use surreal_simple_querybuilder::queries::select;
use surreal_simple_querybuilder::types::Where;

#[test]
fn test_string_literal() {
    let parser = ModelParser::new();
    parser
        .parse("TestModel0 as model_base with(partial) { id, }")
        .unwrap();
    let model = parser
        .parse("TestModel1 { id, pub r#in, pub other<TestModel0>, pub ->relation->TestModel0 as r#for }")
        .unwrap();
    let schema = model.schema();

    assert_eq!(schema.field("in").unwrap().to_string(), "in");
    assert_eq!(schema.field("for").unwrap().to_string(), "->relation->TestModel0");

    let filter = Where((schema.field("in").unwrap(), Value::from("some_value")));
    let (query, params) = select("*", "table", filter).unwrap();

    assert_eq!(query, "SELECT * FROM table WHERE in = $in");

    assert_eq!(params.get("in"), Some(&Value::from("some_value")));
}

#[test]
fn traversal_chain_renders_dotted_path() {
    let parser = ModelParser::new();
    let account = parser
        .parse("Account { name, author<Account>, friends<Account> }")
        .unwrap();
    let file = parser.parse("File { name, author<Account> }").unwrap();

    let path = file
        .schema()
        .traverse("author", &account)
        .unwrap()
        .traverse("friends", &account)
        .unwrap()
        .traverse("author", &account)
        .unwrap()
        .traverse("friends", &account)
        .unwrap()
        .field("name")
        .unwrap()
        .to_string();

    assert_eq!(path, "author.friends.author.friends.name");
}

#[test]
fn relation_traversal_renders_edges() {
    let parser = ModelParser::new();
    let project = parser.parse("Project { name }").unwrap();
    let account = parser
        .parse("Account { id, ->manage->Project as managed_projects }")
        .unwrap();
    let schema = account.schema();

    assert_eq!(
        schema.field("managed_projects").unwrap().to_string(),
        "->manage->Project"
    );
    let name = schema
        .traverse("managed_projects", &project)
        .unwrap()
        .field("name")
        .unwrap()
        .to_string();
    assert_eq!(name, "->manage->Project.name");
}

#[test]
fn incoming_relation_renders_back_arrows() {
    let parser = ModelParser::new();
    let model = parser
        .parse("Project { id, <-manage<-Account as authors }")
        .unwrap();
    let schema = model.schema();

    assert_eq!(schema.field("authors").unwrap().to_string(), "<-manage<-Account");
}

#[test]
fn parser_accepts_alias_and_options() {
    let model = ModelParser::new()
        .parse("TestModel0 as model_base with(partial) { id, }")
        .unwrap();

    assert_eq!(model.name.0, "TestModel0");
    assert_eq!(model.alias.as_ref().unwrap().0, "model_base");
    assert!(model.options.partial);
    assert_eq!(model.fields.len(), 1);
}

#[test]
fn parser_rejects_malformed_declarations() {
    let parser = ModelParser::new();
    assert!(parser.parse("").is_err());
    assert!(parser.parse("User").is_err());
    assert!(parser.parse("User {").is_err());
    assert!(parser.parse("User { id").is_err());
    assert!(parser.parse("User { id, } trailing").is_err());
    assert!(parser.parse("{ id }").is_err());
    assert!(parser.parse("User { id name }").is_err());
    assert!(parser.parse("User { a<b }").is_err());
    assert!(parser.parse("User { ->r->T }").is_err());
    assert!(parser.parse("User { ->r<-T as x }").is_err());
    assert!(parser.parse("User { id; }").is_err());
}

#[test]
fn parser_rejects_duplicate_accessors() {
    let parser = ModelParser::new();
    assert!(parser.parse("User { id, id }").is_err());
    assert!(parser.parse("User { id, ->r->T as id }").is_err());
    assert!(parser.parse("User { id, other }").is_ok());
}

#[test]
fn parser_tracks_field_kinds_and_visibility() {
    let model = ModelParser::new()
        .parse("User { id, pub handle, friend<User>, pub ->likes->User as liked }")
        .unwrap();

    assert!(!model.fields[0].is_public());
    assert!(model.fields[1].is_public());
    assert!(!model.fields[0].is_traversable());
    assert!(model.fields[2].is_traversable());
    assert!(model.fields[3].is_traversable());
    assert_eq!(model.fields[3].accessor_name(), "liked");
    assert_eq!(model.fields[3].wire_identifier(), "->likes->User");
}

#[test]
fn schema_field_from_alias_prefixes_the_path() {
    let field = SchemaField::new("name").from_alias("author");
    assert_eq!(field.to_string(), "author.name");
}

#[test]
fn schema_field_parameterizes_dotted_paths_with_underscores() {
    let origin = OriginHolder::new(vec!["author".to_owned(), "friends".to_owned()]);
    let field = SchemaField::with_origin("name", Some(origin));
    assert_eq!(field.to_string(), "author.friends.name");
    assert_eq!(
        field.equals_parameterized(),
        "author.friends.name = $author_friends_name"
    );
}

#[test]
fn traverse_rejects_plain_properties_and_wrong_targets() {
    let parser = ModelParser::new();
    let account = parser.parse("Account { name, friend<Account> }").unwrap();
    let other = parser.parse("Other { id }").unwrap();
    let schema = account.schema();

    assert!(schema.traverse("name", &account).is_none());
    assert!(schema.traverse("friend", &other).is_none());
    assert!(schema.traverse("missing", &account).is_none());
}
