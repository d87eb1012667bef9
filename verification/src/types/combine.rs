//! Combinator fragments: `Where`, `And`, `Or` and `Set` wrap an inner
//! fragment and decide how its comparisons are joined.

use vstd::prelude::*;

use crate::bindings::BindingMap;
use crate::bindings::SerializeError;
use crate::queries::QueryBuilderInjecter;
use crate::querybuilder::QueryBuilder;
use crate::querybuilder::cond_interleave;
use crate::querybuilder::interleave;

verus! {

/// Adds a `WHERE` clause; the inner fragment's comparisons are joined by
/// `AND` unless an inner [`Or`]/[`And`] overrides the joiner for its scope.
pub struct Where<T>(pub T);

impl<T: QueryBuilderInjecter> QueryBuilderInjecter for Where<T> {
    open spec fn clause(&self) -> Seq<Seq<char>> {
        seq!["WHERE"@] + cond_interleave(self.0.clause(), "AND"@)
    }

    open spec fn binds(&self) -> Map<Seq<char>, serde_json::Value> {
        self.0.binds()
    }

    fn inject(&self, querybuilder: QueryBuilder) -> (r: QueryBuilder) {
        let ghost before = querybuilder.segs();
        let mut s = querybuilder;
        s.add_segment("WHERE");
        proof {
            reveal_strlit("WHERE");
        }
        let fresh = QueryBuilder::new();
        let sub = self.0.inject(fresh);
        proof {
            assert(sub.segs() =~= self.0.clause());
        }
        let r = s.splice_conditions(sub, "AND");
        proof {
            assert(before.push("WHERE"@) + cond_interleave(self.0.clause(), "AND"@)
                =~= before + (seq!["WHERE"@] + cond_interleave(self.0.clause(), "AND"@)));
        }
        r
    }

    fn params(self, map: &mut BindingMap) -> (r: Result<(), SerializeError>) {
        self.0.params(map)
    }
}

impl<Own: QueryBuilderInjecter> Where<Own> {
    /// Extends the filter with a further fragment, joined like any other
    /// inner comparison.
    pub fn extend<Other: QueryBuilderInjecter>(self, other: Other) -> (r: Where<(Own, Other)>)
        ensures
            r.0.0 == self.0,
            r.0.1 == other,
    {
        Where((self.0, other))
    }

    /// Extends the filter with `other` only when `condition` holds.
    pub fn extend_on<Other: QueryBuilderInjecter>(self, condition: bool, other: Other) -> (r:
        Where<(Own, Option<Other>)>)
        ensures
            r.0.0 == self.0,
            condition ==> r.0.1 == Some(other),
            !condition ==> r.0.1 is None,
    {
        if condition {
            Where((self.0, Some(other)))
        } else {
            Where((self.0, None))
        }
    }
}

/// Joins the inner fragment's comparisons with `AND`; a single comparison is
/// prefixed with `AND` instead, for appending to an existing filter.
pub struct And<T>(pub T);

impl<T: QueryBuilderInjecter> QueryBuilderInjecter for And<T> {
    open spec fn clause(&self) -> Seq<Seq<char>> {
        if self.0.clause().len() == 1 {
            seq!["AND"@] + self.0.clause()
        } else {
            cond_interleave(self.0.clause(), "AND"@)
        }
    }

    open spec fn binds(&self) -> Map<Seq<char>, serde_json::Value> {
        self.0.binds()
    }

    fn inject(&self, querybuilder: QueryBuilder) -> (r: QueryBuilder) {
        let ghost before = querybuilder.segs();
        let fresh = QueryBuilder::new();
        let sub = self.0.inject(fresh);
        proof {
            assert(sub.segs() =~= self.0.clause());
        }
        if sub.segments.len() == 1 {
            let mut s = querybuilder;
            s.add_segment("AND");
            proof {
                reveal_strlit("AND");
            }
            let r = s.splice_conditions(sub, "AND");
            proof {
                assert(cond_interleave(self.0.clause(), "AND"@) == seq![self.0.clause()[0]]);
                assert(before.push("AND"@) + seq![self.0.clause()[0]] =~= before + (
                seq!["AND"@] + self.0.clause()));
            }
            r
        } else {
            querybuilder.splice_conditions(sub, "AND")
        }
    }

    fn params(self, map: &mut BindingMap) -> (r: Result<(), SerializeError>) {
        self.0.params(map)
    }
}

/// Joins the inner fragment's comparisons with `OR`; a single comparison is
/// prefixed with `OR` instead, for appending to an existing filter.
pub struct Or<T>(pub T);

impl<T: QueryBuilderInjecter> QueryBuilderInjecter for Or<T> {
    open spec fn clause(&self) -> Seq<Seq<char>> {
        if self.0.clause().len() == 1 {
            seq!["OR"@] + self.0.clause()
        } else {
            cond_interleave(self.0.clause(), "OR"@)
        }
    }

    open spec fn binds(&self) -> Map<Seq<char>, serde_json::Value> {
        self.0.binds()
    }

    fn inject(&self, querybuilder: QueryBuilder) -> (r: QueryBuilder) {
        let ghost before = querybuilder.segs();
        let fresh = QueryBuilder::new();
        let sub = self.0.inject(fresh);
        proof {
            assert(sub.segs() =~= self.0.clause());
        }
        if sub.segments.len() == 1 {
            let mut s = querybuilder;
            s.add_segment("OR");
            proof {
                reveal_strlit("OR");
            }
            let r = s.splice_conditions(sub, "OR");
            proof {
                assert(cond_interleave(self.0.clause(), "OR"@) == seq![self.0.clause()[0]]);
                assert(before.push("OR"@) + seq![self.0.clause()[0]] =~= before + (seq!["OR"@]
                    + self.0.clause()));
            }
            r
        } else {
            querybuilder.splice_conditions(sub, "OR")
        }
    }

    fn params(self, map: &mut BindingMap) -> (r: Result<(), SerializeError>) {
        self.0.params(map)
    }
}

/// Adds a `SET` clause; the inner fragment's assignments are comma-joined.
pub struct SetClause<T>(pub T);

impl<T: QueryBuilderInjecter> QueryBuilderInjecter for SetClause<T> {
    open spec fn clause(&self) -> Seq<Seq<char>> {
        seq!["SET"@] + interleave(self.0.clause(), ","@)
    }

    open spec fn binds(&self) -> Map<Seq<char>, serde_json::Value> {
        self.0.binds()
    }

    fn inject(&self, querybuilder: QueryBuilder) -> (r: QueryBuilder) {
        let ghost before = querybuilder.segs();
        let mut s = querybuilder;
        s.add_segment("SET");
        proof {
            reveal_strlit("SET");
        }
        let fresh = QueryBuilder::new();
        let sub = self.0.inject(fresh);
        proof {
            assert(sub.segs() =~= self.0.clause());
        }
        let r = s.splice(sub, ",");
        proof {
            assert(before.push("SET"@) + interleave(self.0.clause(), ","@) =~= before + (
            seq!["SET"@] + interleave(self.0.clause(), ","@)));
        }
        r
    }

    fn params(self, map: &mut BindingMap) -> (r: Result<(), SerializeError>) {
        self.0.params(map)
    }
}

/// A pre-built fragment: injecting appends the segments accumulated in the
/// held builder, an escape hatch where no dedicated fragment type fits.
pub struct Build(pub QueryBuilder);

impl QueryBuilderInjecter for Build {
    open spec fn clause(&self) -> Seq<Seq<char>> {
        self.0.segs()
    }

    open spec fn binds(&self) -> Map<Seq<char>, serde_json::Value> {
        Map::empty()
    }

    fn inject(&self, querybuilder: QueryBuilder) -> (r: QueryBuilder) {
        let ghost orig = querybuilder;
        let mut s = querybuilder;
        let mut i: usize = 0;
        proof {
            assert(orig.segs() + self.0.segs().take(0) =~= orig.segs());
        }
        while i < self.0.segments.len()
            invariant
                i <= self.0.segments@.len(),
                s.segs() == orig.segs() + self.0.segs().take(i as int),
                s.parameters == orig.parameters,
            decreases self.0.segments.len() - i,
        {
            let ghost before = s.segs();
            s.segments.push(self.0.segments[i].clone());
            proof {
                assert(s.segs() =~= before.push(self.0.segs()[i as int]));
                assert(orig.segs() + self.0.segs().take(i as int + 1) =~= (orig.segs()
                    + self.0.segs().take(i as int)).push(self.0.segs()[i as int]));
            }
            i = i + 1;
        }
        proof {
            assert(self.0.segs().take(self.0.segs().len() as int) =~= self.0.segs());
        }
        s
    }

    fn params(self, map: &mut BindingMap) -> (r: Result<(), SerializeError>) {
        proof {
            assert(map@.union_prefer_right(self.binds()) =~= map@);
        }
        Ok(())
    }
}

} // verus!
