//! The schema model: origin paths accumulated while traversing relations,
//! typed schema fields, and the runtime accessor built from a parsed model
//! declaration.

mod origin_holder;
mod relation_node;
mod schema;
mod schema_field;

pub use origin_holder::OriginHolder;
pub use origin_holder::render_path;
pub use origin_holder::sep_before;
pub use origin_holder::starts_arrow;
pub use relation_node::RelationNode;
pub use schema::ModelSchema;
pub use schema::origin_segs;
pub use schema::spec_find_field;
pub use schema_field::SchemaField;
