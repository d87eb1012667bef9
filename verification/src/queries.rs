//! The composition algebra: every query fragment implements
//! [`QueryBuilderInjecter`], and tuples, options and vectors of fragments
//! compose by applying `inject` left to right and folding `params` in the
//! same order.

use vstd::prelude::*;

use crate::bindings::BindingMap;
use crate::bindings::SerializeError;
use crate::querybuilder::QueryBuilder;
use crate::text::spec_join;
use crate::types::From;
use crate::types::Select;
use crate::types::SetClause;
use crate::types::spec_from_clause;
use crate::types::spec_select_clause;

verus! {

/// A composable query fragment: `inject` appends this fragment's clause
/// segments to a builder, `params` contributes its parameter bindings.
pub trait QueryBuilderInjecter: Sized {
    /// The clause segments this fragment renders, in order.
    spec fn clause(&self) -> Seq<Seq<char>>;

    /// The parameter bindings this fragment contributes.
    spec fn binds(&self) -> Map<Seq<char>, serde_json::Value>;

    /// Appends this fragment's clause to the builder; replacement pairs are
    /// left untouched.
    fn inject(&self, querybuilder: QueryBuilder) -> (r: QueryBuilder)
        ensures
            r.segs() == querybuilder.segs() + self.clause(),
            r.parameters == querybuilder.parameters,
    ;

    /// Adds this fragment's bindings to `map`, later fragments overriding
    /// earlier bindings of the same name.
    fn params(self, map: &mut BindingMap) -> (r: Result<(), SerializeError>)
        ensures
            r is Ok,
            final(map)@ == old(map)@.union_prefer_right(self.binds()),
    ;
}

/// The unit fragment: no clause, no bindings.
impl QueryBuilderInjecter for () {
    open spec fn clause(&self) -> Seq<Seq<char>> {
        Seq::empty()
    }

    open spec fn binds(&self) -> Map<Seq<char>, serde_json::Value> {
        Map::empty()
    }

    fn inject(&self, querybuilder: QueryBuilder) -> (r: QueryBuilder) {
        proof {
            assert(querybuilder.segs() + self.clause() =~= querybuilder.segs());
        }
        querybuilder
    }

    fn params(self, map: &mut BindingMap) -> (r: Result<(), SerializeError>) {
        proof {
            assert(map@.union_prefer_right(self.binds()) =~= map@);
        }
        Ok(())
    }
}

/// A raw string fragment, emitted verbatim.
impl QueryBuilderInjecter for &'static str {
    open spec fn clause(&self) -> Seq<Seq<char>> {
        crate::querybuilder::push_seg(Seq::empty(), self@)
    }

    open spec fn binds(&self) -> Map<Seq<char>, serde_json::Value> {
        Map::empty()
    }

    fn inject(&self, querybuilder: QueryBuilder) -> (r: QueryBuilder) {
        let r = querybuilder.raw(self);
        proof {
            lemma_push_seg_app(querybuilder.segs(), self@);
        }
        r
    }

    fn params(self, map: &mut BindingMap) -> (r: Result<(), SerializeError>) {
        proof {
            assert(map@.union_prefer_right(self.binds()) =~= map@);
        }
        Ok(())
    }
}

/// A boolean renders as the literal `true` or `false`.
impl QueryBuilderInjecter for bool {
    open spec fn clause(&self) -> Seq<Seq<char>> {
        if *self {
            seq!["true"@]
        } else {
            seq!["false"@]
        }
    }

    open spec fn binds(&self) -> Map<Seq<char>, serde_json::Value> {
        Map::empty()
    }

    fn inject(&self, querybuilder: QueryBuilder) -> (r: QueryBuilder) {
        let ghost before = querybuilder.segs();
        let r = if *self {
            querybuilder.raw("true")
        } else {
            querybuilder.raw("false")
        };
        proof {
            reveal_strlit("true");
            reveal_strlit("false");
            if *self {
                assert(r.segs() =~= before + seq!["true"@]);
            } else {
                assert(r.segs() =~= before + seq!["false"@]);
            }
        }
        r
    }

    fn params(self, map: &mut BindingMap) -> (r: Result<(), SerializeError>) {
        proof {
            assert(map@.union_prefer_right(self.binds()) =~= map@);
        }
        Ok(())
    }
}

/// An optional fragment: `None` composes as a no-op, enabling conditional
/// inclusion without branching call sites.
impl<I: QueryBuilderInjecter> QueryBuilderInjecter for Option<I> {
    open spec fn clause(&self) -> Seq<Seq<char>> {
        match self {
            Option::Some(inner) => inner.clause(),
            Option::None => Seq::empty(),
        }
    }

    open spec fn binds(&self) -> Map<Seq<char>, serde_json::Value> {
        match self {
            Option::Some(inner) => inner.binds(),
            Option::None => Map::empty(),
        }
    }

    fn inject(&self, querybuilder: QueryBuilder) -> (r: QueryBuilder) {
        match self {
            Option::Some(inner) => inner.inject(querybuilder),
            Option::None => {
                proof {
                    assert(querybuilder.segs() + self.clause() =~= querybuilder.segs());
                }
                querybuilder
            },
        }
    }

    fn params(self, map: &mut BindingMap) -> (r: Result<(), SerializeError>) {
        match self {
            Option::Some(inner) => inner.params(map),
            Option::None => {
                proof {
                    assert(map@.union_prefer_right(Map::<
                        Seq<char>,
                        serde_json::Value,
                    >::empty()) =~= map@);
                }
                Ok(())
            },
        }
    }
}

/// The clauses of a sequence of fragments, concatenated in order.
pub open spec fn clause_of_seq<I: QueryBuilderInjecter>(items: Seq<I>) -> Seq<Seq<char>>
    decreases items.len(),
{
    if items.len() == 0 {
        Seq::empty()
    } else {
        clause_of_seq(items.drop_last()) + items.last().clause()
    }
}

/// The bindings of a sequence of fragments, later fragments overriding.
pub open spec fn binds_of_seq<I: QueryBuilderInjecter>(items: Seq<I>) -> Map<
    Seq<char>,
    serde_json::Value,
>
    decreases items.len(),
{
    if items.len() == 0 {
        Map::empty()
    } else {
        binds_of_seq(items.drop_last()).union_prefer_right(items.last().binds())
    }
}

/// A vector of fragments composes in order.
impl<I: QueryBuilderInjecter> QueryBuilderInjecter for Vec<I> {
    open spec fn clause(&self) -> Seq<Seq<char>> {
        clause_of_seq(self@)
    }

    open spec fn binds(&self) -> Map<Seq<char>, serde_json::Value> {
        binds_of_seq(self@)
    }

    fn inject(&self, querybuilder: QueryBuilder) -> (r: QueryBuilder) {
        let ghost orig = querybuilder;
        let mut qb = querybuilder;
        let mut i: usize = 0;
        proof {
            assert(self@.take(0) =~= Seq::<I>::empty());
            assert(orig.segs() + clause_of_seq(self@.take(0)) =~= orig.segs());
        }
        while i < self.len()
            invariant
                i <= self@.len(),
                qb.segs() == orig.segs() + clause_of_seq(self@.take(i as int)),
                qb.parameters == orig.parameters,
            decreases self.len() - i,
        {
            let ghost before = qb.segs();
            qb = self[i].inject(qb);
            proof {
                assert(self@.take(i as int + 1).drop_last() =~= self@.take(i as int));
                assert(self@.take(i as int + 1).last() == self@[i as int]);
                assert((orig.segs() + clause_of_seq(self@.take(i as int)))
                    + self@[i as int].clause() =~= orig.segs() + (clause_of_seq(
                    self@.take(i as int),
                ) + self@[i as int].clause()));
            }
            i = i + 1;
        }
        proof {
            assert(self@.take(self@.len() as int) =~= self@);
        }
        qb
    }

    fn params(self, map: &mut BindingMap) -> (r: Result<(), SerializeError>) {
        let ghost orig_map = map@;
        let ghost items = self@;
        let mut consumed: Vec<I> = self;
        let total = consumed.len();
        let mut taken: usize = 0;
        proof {
            assert(items.take(0) =~= Seq::<I>::empty());
            assert(orig_map.union_prefer_right(binds_of_seq(items.take(0))) =~= orig_map);
            assert(consumed@ =~= items.skip(0));
        }
        // Consume the fragments front to back by repeatedly removing the
        // first entry.
        while consumed.len() > 0
            invariant
                total == items.len(),
                taken + consumed@.len() == items.len(),
                consumed@ =~= items.skip(taken as int),
                map@ == orig_map.union_prefer_right(binds_of_seq(items.take(taken as int))),
            decreases consumed.len(),
        {
            let first = consumed.remove(0);
            proof {
                assert(items.skip(taken as int)[0] == items[taken as int]);
                assert(consumed@ =~= items.skip(taken as int + 1));
                assert(items.take(taken as int + 1).drop_last() =~= items.take(taken as int));
                assert(items.take(taken as int + 1).last() == items[taken as int]);
            }
            let _ = first.params(map);
            proof {
                assert(map@ =~= orig_map.union_prefer_right(binds_of_seq(items.take(
                    taken as int + 1,
                ))));
            }
            taken = taken + 1;
        }
        proof {
            assert(items.take(items.len() as int) =~= items);
        }
        Ok(())
    }
}

impl<I1: QueryBuilderInjecter, I2: QueryBuilderInjecter> QueryBuilderInjecter for (I1, I2) {
    open spec fn clause(&self) -> Seq<Seq<char>> {
        self.0.clause() + self.1.clause()
    }

    open spec fn binds(&self) -> Map<Seq<char>, serde_json::Value> {
        self.0.binds().union_prefer_right(self.1.binds())
    }

    fn inject(&self, querybuilder: QueryBuilder) -> (r: QueryBuilder) {
        let ghost before = querybuilder.segs();
        let r = self.1.inject(self.0.inject(querybuilder));
        proof {
            assert((before + self.0.clause()) + self.1.clause() =~= before + (self.0.clause()
                + self.1.clause()));
        }
        r
    }

    fn params(self, map: &mut BindingMap) -> (r: Result<(), SerializeError>) {
        let ghost orig_map = map@;
        let _ = self.0.params(map);
        let _ = self.1.params(map);
        proof {
            assert(orig_map.union_prefer_right(self.0.binds()).union_prefer_right(
                self.1.binds(),
            ) =~= orig_map.union_prefer_right(self.0.binds().union_prefer_right(
                self.1.binds(),
            )));
        }
        Ok(())
    }
}

impl<
    I1: QueryBuilderInjecter,
    I2: QueryBuilderInjecter,
    I3: QueryBuilderInjecter,
> QueryBuilderInjecter for (I1, I2, I3) {
    open spec fn clause(&self) -> Seq<Seq<char>> {
        self.0.clause() + self.1.clause() + self.2.clause()
    }

    open spec fn binds(&self) -> Map<Seq<char>, serde_json::Value> {
        self.0.binds().union_prefer_right(self.1.binds()).union_prefer_right(self.2.binds())
    }

    fn inject(&self, querybuilder: QueryBuilder) -> (r: QueryBuilder) {
        let ghost before = querybuilder.segs();
        let r = self.2.inject(self.1.inject(self.0.inject(querybuilder)));
        proof {
            assert(((before + self.0.clause()) + self.1.clause()) + self.2.clause() =~= before
                + (self.0.clause() + self.1.clause() + self.2.clause()));
        }
        r
    }

    fn params(self, map: &mut BindingMap) -> (r: Result<(), SerializeError>) {
        let ghost orig_map = map@;
        let _ = self.0.params(map);
        let _ = self.1.params(map);
        let _ = self.2.params(map);
        proof {
            assert(orig_map.union_prefer_right(self.0.binds()).union_prefer_right(
                self.1.binds(),
            ).union_prefer_right(self.2.binds()) =~= orig_map.union_prefer_right(
                self.0.binds().union_prefer_right(self.1.binds()).union_prefer_right(
                    self.2.binds(),
                ),
            ));
        }
        Ok(())
    }
}

impl<
    I1: QueryBuilderInjecter,
    I2: QueryBuilderInjecter,
    I3: QueryBuilderInjecter,
    I4: QueryBuilderInjecter,
> QueryBuilderInjecter for (I1, I2, I3, I4) {
    open spec fn clause(&self) -> Seq<Seq<char>> {
        self.0.clause() + self.1.clause() + self.2.clause() + self.3.clause()
    }

    open spec fn binds(&self) -> Map<Seq<char>, serde_json::Value> {
        self.0.binds().union_prefer_right(self.1.binds()).union_prefer_right(
            self.2.binds(),
        ).union_prefer_right(self.3.binds())
    }

    fn inject(&self, querybuilder: QueryBuilder) -> (r: QueryBuilder) {
        let ghost before = querybuilder.segs();
        let r = self.3.inject(self.2.inject(self.1.inject(self.0.inject(querybuilder))));
        proof {
            assert((((before + self.0.clause()) + self.1.clause()) + self.2.clause())
                + self.3.clause() =~= before + (self.0.clause() + self.1.clause()
                + self.2.clause() + self.3.clause()));
        }
        r
    }

    fn params(self, map: &mut BindingMap) -> (r: Result<(), SerializeError>) {
        let ghost orig_map = map@;
        let _ = self.0.params(map);
        let _ = self.1.params(map);
        let _ = self.2.params(map);
        let _ = self.3.params(map);
        proof {
            assert(orig_map.union_prefer_right(self.0.binds()).union_prefer_right(
                self.1.binds(),
            ).union_prefer_right(self.2.binds()).union_prefer_right(self.3.binds())
                =~= orig_map.union_prefer_right(
                self.0.binds().union_prefer_right(self.1.binds()).union_prefer_right(
                    self.2.binds(),
                ).union_prefer_right(self.3.binds()),
            ));
        }
        Ok(())
    }
}

/// Appending a nonempty segment is a plain push.
pub proof fn lemma_push_seg_app(segs: Seq<Seq<char>>, s: Seq<char>)
    ensures
        crate::querybuilder::push_seg(segs, s) == segs + crate::querybuilder::push_seg(
            Seq::empty(),
            s,
        ),
{
    if s.len() == 0 {
        assert(segs + Seq::<Seq<char>>::empty() =~= segs);
    } else {
        assert(segs.push(s) =~= segs + Seq::<Seq<char>>::empty().push(s));
    }
}

/// Constructs the query string rendered by the supplied fragments.
pub fn query<I: QueryBuilderInjecter>(component: &I) -> (r: Result<String, SerializeError>)
    ensures
        r matches Ok(s) && s@ == spec_join(component.clause()),
{
    let builder = QueryBuilder::new();
    let builder = component.inject(builder);
    proof {
        assert(Seq::<Seq<char>>::empty() + component.clause() =~= component.clause());
    }
    let q = builder.build();
    Ok(q)
}

/// Collects the parameter bindings contributed by the supplied fragments.
pub fn bindings<I: QueryBuilderInjecter>(component: I) -> (r: Result<
    BindingMap,
    SerializeError,
>)
    ensures
        r matches Ok(m) && m@ == component.binds(),
{
    let mut map = BindingMap::new();
    let ghost b = component.binds();
    let _ = component.params(&mut map);
    proof {
        assert(Map::<Seq<char>, serde_json::Value>::empty().union_prefer_right(b) =~= b);
    }
    Ok(map)
}

/// Builds a `SELECT what FROM from …` query from the given fragments,
/// returning the query string and its bindings.
pub fn select<I: QueryBuilderInjecter>(what: &'static str, from: &'static str, component: I)
    -> (r: Result<(String, BindingMap), SerializeError>)
    ensures
        r matches Ok(p) && p.0@ == spec_join(
            spec_select_clause(what@) + spec_from_clause(from@) + component.clause(),
        ) && p.1@ == component.binds(),
{
    let params = (Select(what), From(from), component);
    let q = match query(&params) {
        Ok(q) => q,
        Err(e) => {
            return Err(e);
        },
    };
    let b = match bindings(params) {
        Ok(b) => b,
        Err(e) => {
            return Err(e);
        },
    };
    proof {
        assert(Map::<Seq<char>, serde_json::Value>::empty().union_prefer_right(
            Map::<Seq<char>, serde_json::Value>::empty(),
        ).union_prefer_right(params.2.binds()) =~= params.2.binds());
    }
    Ok((q, b))
}

/// Builds a `CREATE what SET …` query from the given `Set` fragment,
/// returning the query string and its bindings.
pub fn create<T>(what: &'static str, component: SetClause<T>) -> (r: Result<
    (String, BindingMap),
    SerializeError,
>) where SetClause<T>: QueryBuilderInjecter
    ensures
        r matches Ok(p) && p.0@ == spec_join(
            crate::types::spec_create_clause(what@) + component.clause(),
        ) && p.1@ == component.binds(),
{
    let params = (crate::types::Create(what), component);
    let q = match query(&params) {
        Ok(q) => q,
        Err(e) => {
            return Err(e);
        },
    };
    let b = match bindings(params) {
        Ok(b) => b,
        Err(e) => {
            return Err(e);
        },
    };
    proof {
        assert(Map::<Seq<char>, serde_json::Value>::empty().union_prefer_right(
            params.1.binds(),
        ) =~= params.1.binds());
    }
    Ok((q, b))
}

/// Builds an `UPDATE table …` query from the given fragments, returning the
/// query string and its bindings. The `table` parameter is not escaped: if it
/// holds user input, escape it first.
pub fn update<I: QueryBuilderInjecter>(table: &'static str, component: I) -> (r: Result<
    (String, BindingMap),
    SerializeError,
>)
    ensures
        r matches Ok(p) && p.0@ == spec_join(
            crate::types::spec_update_clause(table@) + component.clause(),
        ) && p.1@ == component.binds(),
{
    let params = (crate::types::Update(table), component);
    let q = match query(&params) {
        Ok(q) => q,
        Err(e) => {
            return Err(e);
        },
    };
    let b = match bindings(params) {
        Ok(b) => b,
        Err(e) => {
            return Err(e);
        },
    };
    proof {
        assert(Map::<Seq<char>, serde_json::Value>::empty().union_prefer_right(
            params.1.binds(),
        ) =~= params.1.binds());
    }
    Ok((q, b))
}

/// Builds a `DELETE table …` query from the given fragments, returning the
/// query string and its bindings.
pub fn delete<I: QueryBuilderInjecter>(table: &'static str, component: I) -> (r: Result<
    (String, BindingMap),
    SerializeError,
>)
    ensures
        r matches Ok(p) && p.0@ == spec_join(
            crate::types::spec_delete_clause(table@) + component.clause(),
        ) && p.1@ == component.binds(),
{
    let params = (crate::types::Delete(table), component);
    let q = match query(&params) {
        Ok(q) => q,
        Err(e) => {
            return Err(e);
        },
    };
    let b = match bindings(params) {
        Ok(b) => b,
        Err(e) => {
            return Err(e);
        },
    };
    proof {
        assert(Map::<Seq<char>, serde_json::Value>::empty().union_prefer_right(
            params.1.binds(),
        ) =~= params.1.binds());
    }
    Ok((q, b))
}

} // verus!
