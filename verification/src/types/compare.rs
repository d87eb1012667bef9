//! Comparison fragments: `key op $key` clauses that bind the right side as a
//! named parameter, plus the raw-SQL escape hatch.

use vstd::prelude::*;

use crate::bindings::BindingMap;
use crate::bindings::SerializeError;
use crate::queries::QueryBuilderInjecter;
use crate::querybuilder::QueryBuilder;
use crate::querybuilder::push_seg;
use crate::types::Sql;
use crate::types::object::Object;
use crate::types::object::spec_obj_binds;
use crate::types::object::spec_obj_clause;

verus! {

/// The text of a `key op $key` comparison.
pub open spec fn spec_cmp_text(key: Seq<char>, op: Seq<char>) -> Seq<char> {
    key + " "@ + op + " $"@ + key
}

/// The text of a `key op value` comparison with a verbatim right side.
pub open spec fn spec_cmp_raw_text(key: Seq<char>, op: Seq<char>, value: Seq<char>) -> Seq<
    char,
> {
    key + " "@ + op + " "@ + value
}

/// Renders `key op $key`.
pub fn cmp_text(key: &str, op: &str) -> (r: String)
    ensures
        r@ == spec_cmp_text(key@, op@),
        r@.len() > 0,
{
    let out = String::from_str(key).concat(" ").concat(op).concat(" $").concat(key);
    proof {
        reveal_strlit(" ");
        reveal_strlit(" $");
        assert(out@ =~= spec_cmp_text(key@, op@));
    }
    out
}

/// Renders `key op value` with a verbatim right side.
pub fn cmp_raw_text(key: &str, op: &str, value: &str) -> (r: String)
    ensures
        r@ == spec_cmp_raw_text(key@, op@, value@),
        r@.len() > 0,
{
    let out = String::from_str(key).concat(" ").concat(op).concat(" ").concat(value);
    proof {
        reveal_strlit(" ");
        assert(out@ =~= spec_cmp_raw_text(key@, op@, value@));
    }
    out
}

/// A bare `(key, value)` pair emits `key = $key` and binds `$key` to the
/// value.
impl QueryBuilderInjecter for (&'static str, serde_json::Value) {
    open spec fn clause(&self) -> Seq<Seq<char>> {
        seq![spec_cmp_text(self.0@, "="@)]
    }

    open spec fn binds(&self) -> Map<Seq<char>, serde_json::Value> {
        Map::empty().insert(self.0@, self.1)
    }

    fn inject(&self, querybuilder: QueryBuilder) -> (r: QueryBuilder) {
        let ghost before = querybuilder.segs();
        let text = cmp_text(self.0, "=");
        let r = querybuilder.raw(text.as_str());
        proof {
            assert(r.segs() =~= before + seq![spec_cmp_text(self.0@, "="@)]);
        }
        r
    }

    fn params(self, map: &mut BindingMap) -> (r: Result<(), SerializeError>) {
        let ghost before = map@;
        map.insert(self.0.to_owned(), self.1);
        proof {
            assert(before.insert(self.0@, self.1) =~= before.union_prefer_right(
                self.binds(),
            ));
        }
        Ok(())
    }
}

/// A `(key, Sql(text))` pair emits `key = text` verbatim, with no binding.
impl QueryBuilderInjecter for (&'static str, Sql<&'static str>) {
    open spec fn clause(&self) -> Seq<Seq<char>> {
        seq![spec_cmp_raw_text(self.0@, "="@, self.1.0@)]
    }

    open spec fn binds(&self) -> Map<Seq<char>, serde_json::Value> {
        Map::empty()
    }

    fn inject(&self, querybuilder: QueryBuilder) -> (r: QueryBuilder) {
        let ghost before = querybuilder.segs();
        let text = cmp_raw_text(self.0, "=", self.1.0);
        let r = querybuilder.raw(text.as_str());
        proof {
            assert(r.segs() =~= before + seq![spec_cmp_raw_text(self.0@, "="@, self.1.0@)]);
        }
        r
    }

    fn params(self, map: &mut BindingMap) -> (r: Result<(), SerializeError>) {
        proof {
            assert(map@.union_prefer_right(self.binds()) =~= map@);
        }
        Ok(())
    }
}

/// A `(field, value)` pair over a schema field emits `path = $param` and
/// binds `$param` to the value, where `param` is the rendered path with dots
/// replaced by underscores.
impl QueryBuilderInjecter for (crate::model::SchemaField, serde_json::Value) {
    open spec fn clause(&self) -> Seq<Seq<char>> {
        seq![self.0.path() + " = $"@ + crate::text::spec_undot(self.0.path())]
    }

    open spec fn binds(&self) -> Map<Seq<char>, serde_json::Value> {
        Map::empty().insert(crate::text::spec_undot(self.0.path()), self.1)
    }

    fn inject(&self, querybuilder: QueryBuilder) -> (r: QueryBuilder) {
        let ghost before = querybuilder.segs();
        let text = self.0.equals_parameterized();
        let r = querybuilder.raw(text.as_str());
        proof {
            reveal_strlit(" = $");
            assert(text@.len() > 0);
            assert(r.segs() =~= before + self.clause());
        }
        r
    }

    fn params(self, map: &mut BindingMap) -> (r: Result<(), SerializeError>) {
        let ghost before = map@;
        let rendered = self.0.to_string();
        let param = crate::text::undot(rendered.as_str());
        map.insert(param, self.1);
        proof {
            assert(before.insert(crate::text::spec_undot(self.0.path()), self.1)
                =~= before.union_prefer_right(self.binds()));
        }
        Ok(())
    }
}

/// Appends a `key = $key` comparison; the right side is always bound as a
/// parameter unless wrapped in [`Sql`].
pub struct Equal<T>(pub T);

impl QueryBuilderInjecter for Equal<(&'static str, serde_json::Value)> {
    open spec fn clause(&self) -> Seq<Seq<char>> {
        seq![spec_cmp_text(self.0.0@, "="@)]
    }

    open spec fn binds(&self) -> Map<Seq<char>, serde_json::Value> {
        Map::empty().insert(self.0.0@, self.0.1)
    }

    fn inject(&self, querybuilder: QueryBuilder) -> (r: QueryBuilder) {
        self.0.inject(querybuilder)
    }

    fn params(self, map: &mut BindingMap) -> (r: Result<(), SerializeError>) {
        self.0.params(map)
    }
}

impl QueryBuilderInjecter for Equal<Object> {
    open spec fn clause(&self) -> Seq<Seq<char>> {
        spec_obj_clause(self.0.entries_view(), "="@)
    }

    open spec fn binds(&self) -> Map<Seq<char>, serde_json::Value> {
        spec_obj_binds(self.0.entries_view())
    }

    fn inject(&self, querybuilder: QueryBuilder) -> (r: QueryBuilder) {
        self.0.inject(querybuilder)
    }

    fn params(self, map: &mut BindingMap) -> (r: Result<(), SerializeError>) {
        self.0.params(map)
    }
}

/// Appends a `key > $key` comparison.
pub struct Greater<T>(pub T);

impl QueryBuilderInjecter for Greater<(&'static str, serde_json::Value)> {
    open spec fn clause(&self) -> Seq<Seq<char>> {
        seq![spec_cmp_text(self.0.0@, ">"@)]
    }

    open spec fn binds(&self) -> Map<Seq<char>, serde_json::Value> {
        Map::empty().insert(self.0.0@, self.0.1)
    }

    fn inject(&self, querybuilder: QueryBuilder) -> (r: QueryBuilder) {
        let ghost before = querybuilder.segs();
        let text = cmp_text(self.0.0, ">");
        let r = querybuilder.raw(text.as_str());
        proof {
            assert(r.segs() =~= before + seq![spec_cmp_text(self.0.0@, ">"@)]);
        }
        r
    }

    fn params(self, map: &mut BindingMap) -> (r: Result<(), SerializeError>) {
        let ghost before = map@;
        map.insert(self.0.0.to_owned(), self.0.1);
        proof {
            assert(before.insert(self.0.0@, self.0.1) =~= before.union_prefer_right(
                self.binds(),
            ));
        }
        Ok(())
    }
}

impl QueryBuilderInjecter for Greater<Object> {
    open spec fn clause(&self) -> Seq<Seq<char>> {
        spec_obj_clause(self.0.entries_view(), ">"@)
    }

    open spec fn binds(&self) -> Map<Seq<char>, serde_json::Value> {
        spec_obj_binds(self.0.entries_view())
    }

    fn inject(&self, querybuilder: QueryBuilder) -> (r: QueryBuilder) {
        self.0.inject_with_op(querybuilder, ">")
    }

    fn params(self, map: &mut BindingMap) -> (r: Result<(), SerializeError>) {
        self.0.params(map)
    }
}

/// Appends a `key < $key` comparison.
pub struct Lower<T>(pub T);

impl QueryBuilderInjecter for Lower<(&'static str, serde_json::Value)> {
    open spec fn clause(&self) -> Seq<Seq<char>> {
        seq![spec_cmp_text(self.0.0@, "<"@)]
    }

    open spec fn binds(&self) -> Map<Seq<char>, serde_json::Value> {
        Map::empty().insert(self.0.0@, self.0.1)
    }

    fn inject(&self, querybuilder: QueryBuilder) -> (r: QueryBuilder) {
        let ghost before = querybuilder.segs();
        let text = cmp_text(self.0.0, "<");
        let r = querybuilder.raw(text.as_str());
        proof {
            assert(r.segs() =~= before + seq![spec_cmp_text(self.0.0@, "<"@)]);
        }
        r
    }

    fn params(self, map: &mut BindingMap) -> (r: Result<(), SerializeError>) {
        let ghost before = map@;
        map.insert(self.0.0.to_owned(), self.0.1);
        proof {
            assert(before.insert(self.0.0@, self.0.1) =~= before.union_prefer_right(
                self.binds(),
            ));
        }
        Ok(())
    }
}

impl QueryBuilderInjecter for Lower<Object> {
    open spec fn clause(&self) -> Seq<Seq<char>> {
        spec_obj_clause(self.0.entries_view(), "<"@)
    }

    open spec fn binds(&self) -> Map<Seq<char>, serde_json::Value> {
        spec_obj_binds(self.0.entries_view())
    }

    fn inject(&self, querybuilder: QueryBuilder) -> (r: QueryBuilder) {
        self.0.inject_with_op(querybuilder, "<")
    }

    fn params(self, map: &mut BindingMap) -> (r: Result<(), SerializeError>) {
        self.0.params(map)
    }
}

/// Appends a `key op $key` comparison for a caller-chosen operator.
pub struct Cmp<T>(pub &'static str, pub T);

impl QueryBuilderInjecter for Cmp<(&'static str, serde_json::Value)> {
    open spec fn clause(&self) -> Seq<Seq<char>> {
        seq![spec_cmp_text(self.1.0@, self.0@)]
    }

    open spec fn binds(&self) -> Map<Seq<char>, serde_json::Value> {
        Map::empty().insert(self.1.0@, self.1.1)
    }

    fn inject(&self, querybuilder: QueryBuilder) -> (r: QueryBuilder) {
        let ghost before = querybuilder.segs();
        let text = cmp_text(self.1.0, self.0);
        let r = querybuilder.raw(text.as_str());
        proof {
            assert(r.segs() =~= before + seq![spec_cmp_text(self.1.0@, self.0@)]);
        }
        r
    }

    fn params(self, map: &mut BindingMap) -> (r: Result<(), SerializeError>) {
        let ghost before = map@;
        map.insert(self.1.0.to_owned(), self.1.1);
        proof {
            assert(before.insert(self.1.0@, self.1.1) =~= before.union_prefer_right(
                self.binds(),
            ));
        }
        Ok(())
    }
}

/// Appends a `key += $key` assignment, for `SET` clauses.
pub struct PlusEqual<T>(pub T);

impl QueryBuilderInjecter for PlusEqual<(&'static str, serde_json::Value)> {
    open spec fn clause(&self) -> Seq<Seq<char>> {
        seq![spec_cmp_text(self.0.0@, "+="@)]
    }

    open spec fn binds(&self) -> Map<Seq<char>, serde_json::Value> {
        Map::empty().insert(self.0.0@, self.0.1)
    }

    fn inject(&self, querybuilder: QueryBuilder) -> (r: QueryBuilder) {
        let ghost before = querybuilder.segs();
        let text = cmp_text(self.0.0, "+=");
        let r = querybuilder.raw(text.as_str());
        proof {
            assert(r.segs() =~= before + seq![spec_cmp_text(self.0.0@, "+="@)]);
        }
        r
    }

    fn params(self, map: &mut BindingMap) -> (r: Result<(), SerializeError>) {
        let ghost before = map@;
        map.insert(self.0.0.to_owned(), self.0.1);
        proof {
            assert(before.insert(self.0.0@, self.0.1) =~= before.union_prefer_right(
                self.binds(),
            ));
        }
        Ok(())
    }
}

impl QueryBuilderInjecter for PlusEqual<Object> {
    open spec fn clause(&self) -> Seq<Seq<char>> {
        spec_obj_clause(self.0.entries_view(), "+="@)
    }

    open spec fn binds(&self) -> Map<Seq<char>, serde_json::Value> {
        spec_obj_binds(self.0.entries_view())
    }

    fn inject(&self, querybuilder: QueryBuilder) -> (r: QueryBuilder) {
        self.0.inject_with_op(querybuilder, "+=")
    }

    fn params(self, map: &mut BindingMap) -> (r: Result<(), SerializeError>) {
        self.0.params(map)
    }
}

/// Binds a variable in the final binding map without altering the query
/// string.
pub struct Bind<T>(pub T);

impl QueryBuilderInjecter for Bind<(&'static str, serde_json::Value)> {
    open spec fn clause(&self) -> Seq<Seq<char>> {
        Seq::empty()
    }

    open spec fn binds(&self) -> Map<Seq<char>, serde_json::Value> {
        Map::empty().insert(self.0.0@, self.0.1)
    }

    fn inject(&self, querybuilder: QueryBuilder) -> (r: QueryBuilder) {
        proof {
            assert(querybuilder.segs() + self.clause() =~= querybuilder.segs());
        }
        querybuilder
    }

    fn params(self, map: &mut BindingMap) -> (r: Result<(), SerializeError>) {
        let ghost before = map@;
        map.insert(self.0.0.to_owned(), self.0.1);
        proof {
            assert(before.insert(self.0.0@, self.0.1) =~= before.union_prefer_right(
                self.binds(),
            ));
        }
        Ok(())
    }
}

impl QueryBuilderInjecter for Bind<Object> {
    open spec fn clause(&self) -> Seq<Seq<char>> {
        Seq::empty()
    }

    open spec fn binds(&self) -> Map<Seq<char>, serde_json::Value> {
        spec_obj_binds(self.0.entries_view())
    }

    fn inject(&self, querybuilder: QueryBuilder) -> (r: QueryBuilder) {
        proof {
            assert(querybuilder.segs() + self.clause() =~= querybuilder.segs());
        }
        querybuilder
    }

    fn params(self, map: &mut BindingMap) -> (r: Result<(), SerializeError>) {
        self.0.params(map)
    }
}

} // verus!
