//! Simple clause fragments: a keyword followed by a node or field.

use vstd::prelude::*;

use crate::bindings::BindingMap;
use crate::bindings::SerializeError;
use crate::queries::QueryBuilderInjecter;
use crate::querybuilder::QueryBuilder;
use crate::querybuilder::interleave;
use crate::querybuilder::join_items;
use crate::querybuilder::push_seg;
use crate::text::spec_dec;
use crate::text::u64_to_string;

verus! {

/// The segments of a `SELECT what` clause.
pub open spec fn spec_select_clause(what: Seq<char>) -> Seq<Seq<char>> {
    push_seg(push_seg(Seq::empty(), "SELECT"@), what)
}

/// The segments of a `FROM from` clause.
pub open spec fn spec_from_clause(from: Seq<char>) -> Seq<Seq<char>> {
    push_seg(push_seg(Seq::empty(), "FROM"@), from)
}

/// The segments of a `CREATE what` statement.
pub open spec fn spec_create_clause(what: Seq<char>) -> Seq<Seq<char>> {
    push_seg(push_seg(Seq::empty(), "CREATE"@), what)
}

/// The segments of an `UPDATE what` statement.
pub open spec fn spec_update_clause(what: Seq<char>) -> Seq<Seq<char>> {
    push_seg(push_seg(Seq::empty(), "UPDATE"@), what)
}

/// The segments of a `DELETE what` statement.
pub open spec fn spec_delete_clause(what: Seq<char>) -> Seq<Seq<char>> {
    push_seg(push_seg(Seq::empty(), "DELETE"@), what)
}

/// `push_seg` pushed onto an arbitrary base is the base plus the fresh
/// segments.
pub proof fn lemma_push_seg2(base: Seq<Seq<char>>, a: Seq<char>, b: Seq<char>)
    ensures
        push_seg(push_seg(base, a), b) == base + push_seg(push_seg(Seq::empty(), a), b),
{
    crate::queries::lemma_push_seg_app(base, a);
    crate::queries::lemma_push_seg_app(push_seg(base, a), b);
    crate::queries::lemma_push_seg_app(push_seg(Seq::empty(), a), b);
    assert((base + push_seg(Seq::empty(), a)) + push_seg(Seq::empty(), b) =~= base + (push_seg(
        Seq::empty(),
        a,
    ) + push_seg(Seq::empty(), b)));
    assert(push_seg(Seq::empty(), a) + push_seg(Seq::empty(), b) =~= push_seg(
        push_seg(Seq::empty(), a),
        b,
    ));
}

/// Appends a `CREATE` statement.
pub struct Create(pub &'static str);

impl QueryBuilderInjecter for Create {
    open spec fn clause(&self) -> Seq<Seq<char>> {
        spec_create_clause(self.0@)
    }

    open spec fn binds(&self) -> Map<Seq<char>, serde_json::Value> {
        Map::empty()
    }

    fn inject(&self, querybuilder: QueryBuilder) -> (r: QueryBuilder) {
        let ghost before = querybuilder.segs();
        let r = querybuilder.create(self.0);
        proof {
            lemma_push_seg2(before, "CREATE"@, self.0@);
        }
        r
    }

    fn params(self, map: &mut BindingMap) -> (r: Result<(), SerializeError>) {
        proof {
            assert(map@.union_prefer_right(self.binds()) =~= map@);
        }
        Ok(())
    }
}

/// Appends an `UPDATE` clause.
pub struct Update(pub &'static str);

impl QueryBuilderInjecter for Update {
    open spec fn clause(&self) -> Seq<Seq<char>> {
        spec_update_clause(self.0@)
    }

    open spec fn binds(&self) -> Map<Seq<char>, serde_json::Value> {
        Map::empty()
    }

    fn inject(&self, querybuilder: QueryBuilder) -> (r: QueryBuilder) {
        let ghost before = querybuilder.segs();
        let r = querybuilder.update(self.0);
        proof {
            lemma_push_seg2(before, "UPDATE"@, self.0@);
        }
        r
    }

    fn params(self, map: &mut BindingMap) -> (r: Result<(), SerializeError>) {
        proof {
            assert(map@.union_prefer_right(self.binds()) =~= map@);
        }
        Ok(())
    }
}

/// Appends a `DELETE` statement.
pub struct Delete(pub &'static str);

impl QueryBuilderInjecter for Delete {
    open spec fn clause(&self) -> Seq<Seq<char>> {
        spec_delete_clause(self.0@)
    }

    open spec fn binds(&self) -> Map<Seq<char>, serde_json::Value> {
        Map::empty()
    }

    fn inject(&self, querybuilder: QueryBuilder) -> (r: QueryBuilder) {
        let ghost before = querybuilder.segs();
        let r = querybuilder.delete(self.0);
        proof {
            lemma_push_seg2(before, "DELETE"@, self.0@);
        }
        r
    }

    fn params(self, map: &mut BindingMap) -> (r: Result<(), SerializeError>) {
        proof {
            assert(map@.union_prefer_right(self.binds()) =~= map@);
        }
        Ok(())
    }
}

/// Appends a `SELECT` clause.
pub struct Select(pub &'static str);

impl QueryBuilderInjecter for Select {
    open spec fn clause(&self) -> Seq<Seq<char>> {
        spec_select_clause(self.0@)
    }

    open spec fn binds(&self) -> Map<Seq<char>, serde_json::Value> {
        Map::empty()
    }

    fn inject(&self, querybuilder: QueryBuilder) -> (r: QueryBuilder) {
        let ghost before = querybuilder.segs();
        let r = querybuilder.select(self.0);
        proof {
            lemma_push_seg2(before, "SELECT"@, self.0@);
        }
        r
    }

    fn params(self, map: &mut BindingMap) -> (r: Result<(), SerializeError>) {
        proof {
            assert(map@.union_prefer_right(self.binds()) =~= map@);
        }
        Ok(())
    }
}

/// Appends a `FROM` clause.
pub struct From(pub &'static str);

impl QueryBuilderInjecter for From {
    open spec fn clause(&self) -> Seq<Seq<char>> {
        spec_from_clause(self.0@)
    }

    open spec fn binds(&self) -> Map<Seq<char>, serde_json::Value> {
        Map::empty()
    }

    fn inject(&self, querybuilder: QueryBuilder) -> (r: QueryBuilder) {
        let ghost before = querybuilder.segs();
        let r = querybuilder.from(self.0);
        proof {
            lemma_push_seg2(before, "FROM"@, self.0@);
        }
        r
    }

    fn params(self, map: &mut BindingMap) -> (r: Result<(), SerializeError>) {
        proof {
            assert(map@.union_prefer_right(self.binds()) =~= map@);
        }
        Ok(())
    }
}

/// Dynamically adds a `LIMIT` clause; the limit is either a string or a
/// number rendered in decimal.
pub struct Limit<T>(pub T);

impl QueryBuilderInjecter for Limit<&'static str> {
    open spec fn clause(&self) -> Seq<Seq<char>> {
        push_seg(push_seg(Seq::empty(), "LIMIT"@), self.0@)
    }

    open spec fn binds(&self) -> Map<Seq<char>, serde_json::Value> {
        Map::empty()
    }

    fn inject(&self, querybuilder: QueryBuilder) -> (r: QueryBuilder) {
        let ghost before = querybuilder.segs();
        let r = querybuilder.limit(self.0);
        proof {
            lemma_push_seg2(before, "LIMIT"@, self.0@);
        }
        r
    }

    fn params(self, map: &mut BindingMap) -> (r: Result<(), SerializeError>) {
        proof {
            assert(map@.union_prefer_right(self.binds()) =~= map@);
        }
        Ok(())
    }
}

impl QueryBuilderInjecter for Limit<u64> {
    open spec fn clause(&self) -> Seq<Seq<char>> {
        push_seg(push_seg(Seq::empty(), "LIMIT"@), spec_dec(self.0 as int))
    }

    open spec fn binds(&self) -> Map<Seq<char>, serde_json::Value> {
        Map::empty()
    }

    fn inject(&self, querybuilder: QueryBuilder) -> (r: QueryBuilder) {
        let ghost before = querybuilder.segs();
        let rendered = u64_to_string(self.0);
        let r = querybuilder.limit(rendered.as_str());
        proof {
            lemma_push_seg2(before, "LIMIT"@, spec_dec(self.0 as int));
        }
        r
    }

    fn params(self, map: &mut BindingMap) -> (r: Result<(), SerializeError>) {
        proof {
            assert(map@.union_prefer_right(self.binds()) =~= map@);
        }
        Ok(())
    }
}

/// Appends a `FETCH` clause over one field or several, comma-separated.
pub struct Fetch<T>(pub T);

impl QueryBuilderInjecter for Fetch<&'static str> {
    open spec fn clause(&self) -> Seq<Seq<char>> {
        push_seg(push_seg(Seq::empty(), "FETCH"@), self.0@)
    }

    open spec fn binds(&self) -> Map<Seq<char>, serde_json::Value> {
        Map::empty()
    }

    fn inject(&self, querybuilder: QueryBuilder) -> (r: QueryBuilder) {
        let ghost before = querybuilder.segs();
        let r = querybuilder.fetch(self.0);
        proof {
            lemma_push_seg2(before, "FETCH"@, self.0@);
        }
        r
    }

    fn params(self, map: &mut BindingMap) -> (r: Result<(), SerializeError>) {
        proof {
            assert(map@.union_prefer_right(self.binds()) =~= map@);
        }
        Ok(())
    }
}

impl<const N: usize> QueryBuilderInjecter for Fetch<[&'static str; N]> {
    open spec fn clause(&self) -> Seq<Seq<char>> {
        seq!["FETCH"@] + join_items(
            self.0@.map(|_i: int, s: &str| s@),
            ","@,
            ""@,
            ""@,
        )
    }

    open spec fn binds(&self) -> Map<Seq<char>, serde_json::Value> {
        Map::empty()
    }

    fn inject(&self, querybuilder: QueryBuilder) -> (r: QueryBuilder) {
        let ghost before = querybuilder.segs();
        let r = querybuilder.fetch_many(self.0.as_slice());
        proof {
            assert(before.push("FETCH"@) + join_items(
                self.0@.map(|_i: int, s: &str| s@),
                ","@,
                ""@,
                ""@,
            ) =~= before + (seq!["FETCH"@] + join_items(
                self.0@.map(|_i: int, s: &str| s@),
                ","@,
                ""@,
                ""@,
            )));
        }
        r
    }

    fn params(self, map: &mut BindingMap) -> (r: Result<(), SerializeError>) {
        proof {
            assert(map@.union_prefer_right(self.binds()) =~= map@);
        }
        Ok(())
    }
}

impl QueryBuilderInjecter for Fetch<&'static [&'static str]> {
    open spec fn clause(&self) -> Seq<Seq<char>> {
        seq!["FETCH"@] + join_items(
            self.0@.map(|_i: int, s: &str| s@),
            ","@,
            ""@,
            ""@,
        )
    }

    open spec fn binds(&self) -> Map<Seq<char>, serde_json::Value> {
        Map::empty()
    }

    fn inject(&self, querybuilder: QueryBuilder) -> (r: QueryBuilder) {
        let ghost before = querybuilder.segs();
        let r = querybuilder.fetch_many(self.0);
        proof {
            assert(before.push("FETCH"@) + join_items(
                self.0@.map(|_i: int, s: &str| s@),
                ","@,
                ""@,
                ""@,
            ) =~= before + (seq!["FETCH"@] + join_items(
                self.0@.map(|_i: int, s: &str| s@),
                ","@,
                ""@,
                ""@,
            )));
        }
        r
    }

    fn params(self, map: &mut BindingMap) -> (r: Result<(), SerializeError>) {
        proof {
            assert(map@.union_prefer_right(self.binds()) =~= map@);
        }
        Ok(())
    }
}

/// Adds a comma followed by a fragment, for `SELECT a , b`-style
/// continuations; several inner fragments are comma-joined.
pub struct Also<T>(pub T);

impl<T: QueryBuilderInjecter> QueryBuilderInjecter for Also<T> {
    open spec fn clause(&self) -> Seq<Seq<char>> {
        if self.0.clause().len() == 1 {
            seq![","@] + self.0.clause()
        } else {
            interleave(self.0.clause(), ","@)
        }
    }

    open spec fn binds(&self) -> Map<Seq<char>, serde_json::Value> {
        self.0.binds()
    }

    fn inject(&self, querybuilder: QueryBuilder) -> (r: QueryBuilder) {
        let ghost before = querybuilder.segs();
        let fresh = QueryBuilder::new();
        let sub = self.0.inject(fresh);
        proof {
            assert(Seq::<Seq<char>>::empty() + self.0.clause() =~= self.0.clause());
        }
        if sub.segments.len() == 1 {
            let mut s = querybuilder;
            s.add_segment(",");
            proof {
                reveal_strlit(",");
            }
            let r = s.splice(sub, ",");
            proof {
                assert(interleave(self.0.clause(), ","@) == seq![self.0.clause()[0]]);
                assert(before.push(","@) + seq![self.0.clause()[0]] =~= before + (seq![","@]
                    + self.0.clause()));
            }
            r
        } else {
            let r = querybuilder.splice(sub, ",");
            r
        }
    }

    fn params(self, map: &mut BindingMap) -> (r: Result<(), SerializeError>) {
        self.0.params(map)
    }
}

/// Marks the right side of a comparison as raw unaltered SQL: the text is
/// emitted verbatim and no parameter is bound.
pub struct Sql<T>(pub T);

/// Appends an `ON` clause.
pub struct On<T>(pub T);

impl QueryBuilderInjecter for On<&'static str> {
    open spec fn clause(&self) -> Seq<Seq<char>> {
        push_seg(push_seg(Seq::empty(), "ON"@), self.0@)
    }

    open spec fn binds(&self) -> Map<Seq<char>, serde_json::Value> {
        Map::empty()
    }

    fn inject(&self, querybuilder: QueryBuilder) -> (r: QueryBuilder) {
        let ghost before = querybuilder.segs();
        let mut s = querybuilder;
        s.add_segment("ON");
        s.add_segment(self.0);
        proof {
            lemma_push_seg2(before, "ON"@, self.0@);
        }
        s
    }

    fn params(self, map: &mut BindingMap) -> (r: Result<(), SerializeError>) {
        proof {
            assert(map@.union_prefer_right(self.binds()) =~= map@);
        }
        Ok(())
    }
}

/// Marks an `ORDER BY … DESC` ordering.
pub struct OrderDesc;

/// Marks an `ORDER BY … ASC` ordering.
pub struct OrderAsc;

/// Appends an `ORDER BY` clause whose direction is given by the first
/// component.
pub struct OrderBy<Order, T>(pub Order, pub T);

impl<T> OrderBy<OrderDesc, T> {
    pub fn desc(field: T) -> (r: OrderBy<OrderDesc, T>)
        ensures
            r.1 == field,
    {
        OrderBy(OrderDesc, field)
    }
}

impl<T> OrderBy<OrderAsc, T> {
    pub fn asc(field: T) -> (r: OrderBy<OrderAsc, T>)
        ensures
            r.1 == field,
    {
        OrderBy(OrderAsc, field)
    }
}

impl QueryBuilderInjecter for OrderBy<OrderAsc, &'static str> {
    open spec fn clause(&self) -> Seq<Seq<char>> {
        push_seg(push_seg(push_seg(Seq::empty(), "ORDER BY"@), self.1@), "ASC"@)
    }

    open spec fn binds(&self) -> Map<Seq<char>, serde_json::Value> {
        Map::empty()
    }

    fn inject(&self, querybuilder: QueryBuilder) -> (r: QueryBuilder) {
        let ghost before = querybuilder.segs();
        let r = querybuilder.order_by_asc(self.1);
        proof {
            lemma_push_seg3(before, "ORDER BY"@, self.1@, "ASC"@);
        }
        r
    }

    fn params(self, map: &mut BindingMap) -> (r: Result<(), SerializeError>) {
        proof {
            assert(map@.union_prefer_right(self.binds()) =~= map@);
        }
        Ok(())
    }
}

impl QueryBuilderInjecter for OrderBy<OrderDesc, &'static str> {
    open spec fn clause(&self) -> Seq<Seq<char>> {
        push_seg(push_seg(push_seg(Seq::empty(), "ORDER BY"@), self.1@), "DESC"@)
    }

    open spec fn binds(&self) -> Map<Seq<char>, serde_json::Value> {
        Map::empty()
    }

    fn inject(&self, querybuilder: QueryBuilder) -> (r: QueryBuilder) {
        let ghost before = querybuilder.segs();
        let r = querybuilder.order_by_desc(self.1);
        proof {
            lemma_push_seg3(before, "ORDER BY"@, self.1@, "DESC"@);
        }
        r
    }

    fn params(self, map: &mut BindingMap) -> (r: Result<(), SerializeError>) {
        proof {
            assert(map@.union_prefer_right(self.binds()) =~= map@);
        }
        Ok(())
    }
}

/// Like [`lemma_push_seg2`], for three pushed segments.
pub proof fn lemma_push_seg3(base: Seq<Seq<char>>, a: Seq<char>, b: Seq<char>, c: Seq<char>)
    ensures
        push_seg(push_seg(push_seg(base, a), b), c) == base + push_seg(
            push_seg(push_seg(Seq::empty(), a), b),
            c,
        ),
{
    lemma_push_seg2(base, a, b);
    crate::queries::lemma_push_seg_app(push_seg(push_seg(base, a), b), c);
    crate::queries::lemma_push_seg_app(push_seg(push_seg(Seq::empty(), a), b), c);
    assert((base + push_seg(push_seg(Seq::empty(), a), b)) + push_seg(Seq::empty(), c)
        =~= base + (push_seg(push_seg(Seq::empty(), a), b) + push_seg(Seq::empty(), c)));
}

} // verus!
