//! Injecter types: composable query fragments. Each SQL clause has a
//! fragment type implementing
//! [`QueryBuilderInjecter`](crate::queries::QueryBuilderInjecter), so filters,
//! pagination, fetches and updates combine through tuples without one
//! function per combination.

mod clause;
mod combine;
mod compare;
mod ext;
mod object;
mod pagination;

pub use clause::Also;
pub use clause::Create;
pub use clause::Delete;
pub use clause::Fetch;
pub use clause::From;
pub use clause::Limit;
pub use clause::On;
pub use clause::OrderAsc;
pub use clause::OrderBy;
pub use clause::OrderDesc;
pub use clause::Select;
pub use clause::Sql;
pub use clause::Update;
pub use clause::spec_create_clause;
pub use clause::spec_delete_clause;
pub use clause::spec_from_clause;
pub use clause::spec_select_clause;
pub use clause::spec_update_clause;
pub use combine::And;
pub use combine::Build;
pub use combine::Or;
pub use combine::SetClause;
pub use combine::Where;
pub use compare::Bind;
pub use compare::Cmp;
pub use compare::Equal;
pub use compare::Greater;
pub use compare::Lower;
pub use compare::PlusEqual;
pub use compare::spec_cmp_text;
pub use ext::IntoOptionalInjecterExt;
pub use object::Object;
pub use object::spec_obj_binds;
pub use object::spec_obj_clause;
pub use object::spec_obj_insert;
pub use pagination::Pagination;
