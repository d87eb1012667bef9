//! A JSON-object-shaped fragment: an ordered list of key/value entries that
//! renders one `key op $key` clause per entry and binds each value. Keys are
//! kept unique and in ascending lexicographic order, matching the iteration
//! order of a serialized JSON object.

use vstd::prelude::*;

use crate::bindings::BindingMap;
use crate::bindings::SerializeError;
use crate::queries::QueryBuilderInjecter;
use crate::querybuilder::QueryBuilder;
use crate::text::lex_lt;
use crate::text::str_eq;
use crate::text::str_lt;
use crate::types::compare::cmp_text;
use crate::types::compare::spec_cmp_text;

verus! {

/// `entries` with `(key, value)` inserted: before the first entry whose key
/// is not smaller, replacing it when the keys are equal.
pub open spec fn spec_obj_insert(
    entries: Seq<(Seq<char>, serde_json::Value)>,
    key: Seq<char>,
    value: serde_json::Value,
) -> Seq<(Seq<char>, serde_json::Value)>
    decreases entries.len(),
{
    if entries.len() == 0 {
        seq![(key, value)]
    } else if lex_lt(entries[0].0, key) {
        seq![entries[0]] + spec_obj_insert(entries.skip(1), key, value)
    } else if entries[0].0 == key {
        seq![(key, value)] + entries.skip(1)
    } else {
        seq![(key, value)] + entries
    }
}

/// One `key op $key` clause per entry, in order.
pub open spec fn spec_obj_clause(
    entries: Seq<(Seq<char>, serde_json::Value)>,
    op: Seq<char>,
) -> Seq<Seq<char>> {
    entries.map(|_i: int, e: (Seq<char>, serde_json::Value)| spec_cmp_text(e.0, op))
}

/// The bindings contributed by the entries, later entries overriding.
pub open spec fn spec_obj_binds(entries: Seq<(Seq<char>, serde_json::Value)>) -> Map<
    Seq<char>,
    serde_json::Value,
>
    decreases entries.len(),
{
    if entries.len() == 0 {
        Map::empty()
    } else {
        spec_obj_binds(entries.drop_last()).insert(entries.last().0, entries.last().1)
    }
}

/// An ordered key/value object used directly as a fragment: each key becomes
/// a `key = $key` clause and each value a binding.
pub struct Object {
    pub entries: Vec<(String, serde_json::Value)>,
}

impl Object {
    /// The entries as pairs of key view and value, in iteration order.
    pub open spec fn entries_view(&self) -> Seq<(Seq<char>, serde_json::Value)> {
        self.entries@.map(|_i: int, e: (String, serde_json::Value)| (e.0@, e.1))
    }

    pub fn new() -> (r: Self)
        ensures
            r.entries_view() == Seq::<(Seq<char>, serde_json::Value)>::empty(),
    {
        let r = Object { entries: Vec::new() };
        proof {
            assert(r.entries_view() =~= Seq::<(Seq<char>, serde_json::Value)>::empty());
        }
        r
    }

    /// Inserts `key = value`, keeping keys unique and in ascending order;
    /// an existing binding of the same key is replaced.
    pub fn insert(self, key: &str, value: serde_json::Value) -> (r: Self)
        ensures
            r.entries_view() == spec_obj_insert(self.entries_view(), key@, value),
    {
        let ghost orig = self.entries_view();
        let mut s = self;
        let mut i: usize = 0;
        loop
            invariant
                i <= s.entries@.len(),
                s.entries_view() == orig,
                forall|k: int| 0 <= k < i ==> lex_lt(orig[k].0, key@),
            ensures
                i <= s.entries@.len(),
                s.entries_view() == orig,
                forall|k: int| 0 <= k < i ==> lex_lt(orig[k].0, key@),
                i < s.entries@.len() ==> !lex_lt(orig[i as int].0, key@),
            decreases s.entries@.len() - i,
        {
            if i >= s.entries.len() {
                break;
            }
            if !str_lt(s.entries[i].0.as_str(), key) {
                break;
            }
            i = i + 1;
        }
        proof {
            lemma_obj_insert_at(orig, key@, value, i as int);
        }
        if i < s.entries.len() && str_eq(s.entries[i].0.as_str(), key) {
            s.entries.set(i, (key.to_owned(), value));
            proof {
                assert(s.entries_view() =~= orig.take(i as int) + (seq![(key@, value)]
                    + orig.skip(i as int).skip(1)));
                assert(orig.skip(i as int).skip(1) =~= orig.skip(i as int + 1));
            }
        } else {
            s.entries.insert(i, (key.to_owned(), value));
            proof {
                assert(s.entries_view() =~= orig.take(i as int) + (seq![(key@, value)]
                    + orig.skip(i as int)));
            }
        }
        s
    }

    /// Appends the entries' `key op $key` clauses to a builder, in order.
    pub fn inject_with_op(&self, querybuilder: QueryBuilder, op: &str) -> (r: QueryBuilder)
        ensures
            r.segs() == querybuilder.segs() + spec_obj_clause(self.entries_view(), op@),
            r.parameters == querybuilder.parameters,
    {
        let ghost orig = querybuilder;
        let ghost entries = self.entries_view();
        let mut s = querybuilder;
        let mut i: usize = 0;
        while i < self.entries.len()
            invariant
                i <= self.entries@.len(),
                entries == self.entries_view(),
                s.parameters == orig.parameters,
                s.segs() == orig.segs() + spec_obj_clause(entries, op@).take(i as int),
            decreases self.entries.len() - i,
        {
            let ghost before = s.segs();
            let text = cmp_text(self.entries[i].0.as_str(), op);
            s.segments.push(text);
            proof {
                assert(s.segs() =~= before.push(spec_cmp_text(entries[i as int].0, op@)));
                assert(orig.segs() + spec_obj_clause(entries, op@).take(i as int + 1)
                    =~= (orig.segs() + spec_obj_clause(entries, op@).take(i as int)).push(
                    spec_cmp_text(entries[i as int].0, op@),
                ));
            }
            i = i + 1;
        }
        proof {
            assert(spec_obj_clause(entries, op@).take(entries.len() as int) =~= spec_obj_clause(
                entries,
                op@,
            ));
        }
        s
    }

    /// Adds each entry's binding to `map`, in order.
    pub fn add_bindings(self, map: &mut BindingMap) -> (r: Result<(), SerializeError>)
        ensures
            r is Ok,
            final(map)@ == old(map)@.union_prefer_right(spec_obj_binds(self.entries_view())),
    {
        let ghost orig_map = map@;
        let ghost orig_vec = self.entries@;
        let ghost entries = self.entries_view();
        let mut remaining = self.entries;
        let total = remaining.len();
        let mut taken: usize = 0;
        proof {
            assert(remaining@ =~= orig_vec.skip(0));
            assert(entries.take(0) =~= Seq::<(Seq<char>, serde_json::Value)>::empty());
            assert(orig_map.union_prefer_right(spec_obj_binds(entries.take(0))) =~= orig_map);
        }
        while remaining.len() > 0
            invariant
                total == entries.len(),
                orig_vec.len() == entries.len(),
                entries == orig_vec.map(|_i: int, e: (String, serde_json::Value)| (e.0@, e.1)),
                taken + remaining@.len() == entries.len(),
                remaining@ =~= orig_vec.skip(taken as int),
                map@ == orig_map.union_prefer_right(spec_obj_binds(entries.take(taken as int))),
            decreases remaining@.len(),
        {
            let (k, v) = remaining.remove(0);
            proof {
                assert(remaining@ =~= orig_vec.skip(taken as int).remove(0));
                assert(remaining@ =~= orig_vec.skip(taken as int + 1));
                assert(orig_vec.skip(taken as int)[0] == orig_vec[taken as int]);
                assert((k@, v) == entries[taken as int]);
                assert(entries.take(taken as int + 1).drop_last() =~= entries.take(
                    taken as int,
                ));
                assert(entries.take(taken as int + 1).last() == entries[taken as int]);
            }
            let ghost before = map@;
            map.insert(k, v);
            proof {
                assert(before.insert(entries[taken as int].0, entries[taken as int].1)
                    =~= orig_map.union_prefer_right(spec_obj_binds(entries.take(
                    taken as int + 1,
                ))));
            }
            taken = taken + 1;
        }
        proof {
            assert(entries.take(entries.len() as int) =~= entries);
        }
        Ok(())
    }
}

/// When the first `at` entries' keys are smaller than `key`, inserting places
/// the new entry at position `at` (replacing an equal key there).
proof fn lemma_obj_insert_at(
    entries: Seq<(Seq<char>, serde_json::Value)>,
    key: Seq<char>,
    value: serde_json::Value,
    at: int,
)
    requires
        0 <= at <= entries.len(),
        forall|k: int| 0 <= k < at ==> lex_lt(entries[k].0, key),
        at < entries.len() ==> !lex_lt(entries[at].0, key),
    ensures
        at < entries.len() && entries[at].0 == key ==> spec_obj_insert(entries, key, value)
            == entries.take(at) + (seq![(key, value)] + entries.skip(at).skip(1)),
        !(at < entries.len() && entries[at].0 == key) ==> spec_obj_insert(entries, key, value)
            == entries.take(at) + (seq![(key, value)] + entries.skip(at)),
    decreases at,
{
    if at == 0 {
        assert(entries.take(0) =~= Seq::<(Seq<char>, serde_json::Value)>::empty());
        assert(entries.skip(0) =~= entries);
        if entries.len() > 0 && entries[0].0 == key {
            assert(entries.take(0) + (seq![(key, value)] + entries.skip(0).skip(1))
                =~= seq![(key, value)] + entries.skip(1));
        } else if entries.len() == 0 {
            assert(entries.take(0) + (seq![(key, value)] + entries.skip(0)) =~= seq![
                (key, value),
            ]);
        } else {
            assert(entries.take(0) + (seq![(key, value)] + entries.skip(0)) =~= seq![
                (key, value),
            ] + entries);
        }
    } else {
        assert(lex_lt(entries[0].0, key));
        lemma_obj_insert_at(entries.skip(1), key, value, at - 1);
        assert(entries.skip(1).take(at - 1) =~= entries.take(at).skip(1));
        if at < entries.len() && entries[at].0 == key {
            assert(entries.skip(1)[at - 1] == entries[at]);
            assert(entries.skip(1).skip(at - 1).skip(1) =~= entries.skip(at).skip(1));
            assert(spec_obj_insert(entries, key, value) == seq![entries[0]] + spec_obj_insert(
                entries.skip(1),
                key,
                value,
            ));
            assert(seq![entries[0]] + (entries.skip(1).take(at - 1) + (seq![(key, value)]
                + entries.skip(at).skip(1))) =~= entries.take(at) + (seq![(key, value)]
                + entries.skip(at).skip(1)));
        } else {
            if at < entries.len() {
                assert(entries.skip(1)[at - 1] == entries[at]);
            }
            assert(entries.skip(1).skip(at - 1) =~= entries.skip(at));
            assert(spec_obj_insert(entries, key, value) == seq![entries[0]] + spec_obj_insert(
                entries.skip(1),
                key,
                value,
            ));
            assert(seq![entries[0]] + (entries.skip(1).take(at - 1) + (seq![(key, value)]
                + entries.skip(at))) =~= entries.take(at) + (seq![(key, value)] + entries.skip(
                at,
            )));
        }
    }
}

/// A JSON-shaped object used directly as a fragment behaves like a list of
/// `key = $key` comparisons.
impl QueryBuilderInjecter for Object {
    open spec fn clause(&self) -> Seq<Seq<char>> {
        spec_obj_clause(self.entries_view(), "="@)
    }

    open spec fn binds(&self) -> Map<Seq<char>, serde_json::Value> {
        spec_obj_binds(self.entries_view())
    }

    fn inject(&self, querybuilder: QueryBuilder) -> (r: QueryBuilder) {
        self.inject_with_op(querybuilder, "=")
    }

    fn params(self, map: &mut BindingMap) -> (r: Result<(), SerializeError>) {
        self.add_bindings(map)
    }
}

} // verus!
