//! An ordered-segment assembler for SurrealQL queries: clause-prefixed
//! fragments are pushed in order, joined with single spaces at build time,
//! and a final placeholder-substitution pass rewrites template slots.

use vstd::prelude::*;

use crate::text::join_with_spaces;
use crate::text::replace_str;
use crate::text::spec_apply_params;
use crate::text::spec_join;
use crate::text::spec_replace;

verus! {

/// `segs` with `s` appended, unless `s` is empty: empty segments are dropped
/// silently so conditionally-empty fragments leave no stray separator.
pub open spec fn push_seg(segs: Seq<Seq<char>>, s: Seq<char>) -> Seq<Seq<char>> {
    if s.len() == 0 {
        segs
    } else {
        segs.push(s)
    }
}

/// `items` with `sep` inserted between consecutive entries (entries are kept
/// verbatim, even empty ones).
pub open spec fn interleave(items: Seq<Seq<char>>, sep: Seq<char>) -> Seq<Seq<char>>
    decreases items.len(),
{
    if items.len() == 0 {
        Seq::empty()
    } else if items.len() == 1 {
        seq![items[0]]
    } else {
        seq![items[0], sep] + interleave(items.skip(1), sep)
    }
}

/// One entry of a joined segment list: prefix, item and suffix in order,
/// each dropped when empty.
pub open spec fn seg_ps(prefix: Seq<char>, item: Seq<char>, suffix: Seq<char>) -> Seq<
    Seq<char>,
> {
    push_seg(push_seg(push_seg(Seq::empty(), prefix), item), suffix)
}

/// The segments produced by joining `items`, each wrapped in `prefix` and
/// `suffix`, with `sep` between consecutive entries.
pub open spec fn join_items(
    items: Seq<Seq<char>>,
    sep: Seq<char>,
    prefix: Seq<char>,
    suffix: Seq<char>,
) -> Seq<Seq<char>>
    decreases items.len(),
{
    if items.len() == 0 {
        Seq::empty()
    } else if items.len() == 1 {
        seg_ps(prefix, items[0], suffix)
    } else {
        seg_ps(prefix, items[0], suffix) + push_seg(Seq::empty(), sep) + join_items(
            items.skip(1),
            sep,
            prefix,
            suffix,
        )
    }
}

/// Whether a segment is a boolean joiner token, which carries its own
/// separation in a condition list.
pub open spec fn is_joiner(s: Seq<char>) -> bool {
    s == "AND"@ || s == "OR"@
}

/// `items` with `sep` inserted between consecutive entries, except where
/// either neighbour is itself a boolean joiner token: an inner `AND`/`OR`
/// overrides the joiner for its scope.
pub open spec fn cond_interleave(items: Seq<Seq<char>>, sep: Seq<char>) -> Seq<Seq<char>>
    decreases items.len(),
{
    if items.len() == 0 {
        Seq::empty()
    } else if items.len() == 1 {
        seq![items[0]]
    } else if is_joiner(items[0]) || is_joiner(items[1]) {
        seq![items[0]] + cond_interleave(items.skip(1), sep)
    } else {
        seq![items[0], sep] + cond_interleave(items.skip(1), sep)
    }
}

/// Segment of a query held by the [`QueryBuilder`] until the final query is
/// built: either an owned string, or an index into the builder's internal
/// storage filled by [`QueryBuilder::hold`].
#[derive(Clone)]
pub enum QueryBuilderSegment {
    Str(String),
    Ref(usize),
}

/// An ordered list of query segments plus the placeholder-replacement pairs
/// applied once at [`QueryBuilder::build`] time.
pub struct QueryBuilder {
    pub segments: Vec<String>,
    pub parameters: Vec<(String, String)>,
    pub storage: Vec<String>,
}

impl QueryBuilder {
    /// The views of the accumulated segments, in order.
    pub open spec fn segs(&self) -> Seq<Seq<char>> {
        self.segments@.map(|_i: int, s: String| s@)
    }

    /// The views of the replacement pairs, in insertion order.
    pub open spec fn params_view(&self) -> Seq<(Seq<char>, Seq<char>)> {
        self.parameters@.map(|_i: int, p: (String, String)| (p.0@, p.1@))
    }

    /// The views of the held strings, in order.
    pub open spec fn storage_view(&self) -> Seq<Seq<char>> {
        self.storage@.map(|_i: int, s: String| s@)
    }

    /// Whether this builder holds nothing yet.
    pub open spec fn is_empty_builder(&self) -> bool {
        self.segs() == Seq::<Seq<char>>::empty() && self.params_view() == Seq::<(
            Seq<char>,
            Seq<char>,
        )>::empty() && self.storage_view() == Seq::<Seq<char>>::empty()
    }

    /// The text a [`QueryBuilderSegment`] stands for, resolved against this
    /// builder's storage; a dangling index resolves to the empty string.
    pub open spec fn seg_value(&self, s: QueryBuilderSegment) -> Seq<char> {
        match s {
            QueryBuilderSegment::Str(t) => t@,
            QueryBuilderSegment::Ref(i) => if i < self.storage@.len() {
                self.storage@[i as int]@
            } else {
                Seq::empty()
            },
        }
    }

    pub fn new() -> (r: Self)
        ensures
            r.is_empty_builder(),
    {
        let r = QueryBuilder { segments: Vec::new(), parameters: Vec::new(), storage: Vec::new() };
        proof {
            assert(r.segs() =~= Seq::<Seq<char>>::empty());
            assert(r.params_view() =~= Seq::<(Seq<char>, Seq<char>)>::empty());
            assert(r.storage_view() =~= Seq::<Seq<char>>::empty());
        }
        r
    }

    /// Add the given segment to the internal buffer; empty segments are
    /// dropped. This is a rather internal method that is set public for
    /// special cases, prefer [`QueryBuilder::raw`].
    pub fn add_segment(&mut self, segment: &str)
        ensures
            final(self).segs() == push_seg(old(self).segs(), segment@),
            final(self).parameters == old(self).parameters,
            final(self).storage == old(self).storage,
    {
        if !segment.is_empty() {
            self.segments.push(segment.to_owned());
            proof {
                assert(self.segs() =~= push_seg(old(self).segs(), segment@));
            }
        }
    }

    fn add_segment_p(&mut self, prefix: &str, segment: &str)
        ensures
            final(self).segs() == push_seg(push_seg(old(self).segs(), prefix@), segment@),
            final(self).parameters == old(self).parameters,
            final(self).storage == old(self).storage,
    {
        self.add_segment(prefix);
        self.add_segment(segment);
    }

    fn add_segment_ps(&mut self, prefix: &str, segment: &str, suffix: &str)
        ensures
            final(self).segs() == push_seg(
                push_seg(push_seg(old(self).segs(), prefix@), segment@),
                suffix@,
            ),
            final(self).parameters == old(self).parameters,
            final(self).storage == old(self).storage,
    {
        self.add_segment_p(prefix, segment);
        self.add_segment(suffix);
    }

    /// Start a `CREATE` statement.
    pub fn create(self, node: &str) -> (r: Self)
        ensures
            r.segs() == push_seg(push_seg(self.segs(), "CREATE"@), node@),
            r.parameters == self.parameters,
            r.storage == self.storage,
    {
        let mut s = self;
        s.add_segment_p("CREATE", node);
        s
    }

    /// Start an `UPDATE` statement.
    pub fn update(self, node: &str) -> (r: Self)
        ensures
            r.segs() == push_seg(push_seg(self.segs(), "UPDATE"@), node@),
            r.parameters == self.parameters,
            r.storage == self.storage,
    {
        let mut s = self;
        s.add_segment_p("UPDATE", node);
        s
    }

    /// Start a `SELECT` statement.
    pub fn select(self, node: &str) -> (r: Self)
        ensures
            r.segs() == push_seg(push_seg(self.segs(), "SELECT"@), node@),
            r.parameters == self.parameters,
            r.storage == self.storage,
    {
        let mut s = self;
        s.add_segment_p("SELECT", node);
        s
    }

    /// Start a `DELETE` statement.
    pub fn delete(self, node: &str) -> (r: Self)
        ensures
            r.segs() == push_seg(push_seg(self.segs(), "DELETE"@), node@),
            r.parameters == self.parameters,
            r.storage == self.storage,
    {
        let mut s = self;
        s.add_segment_p("DELETE", node);
        s
    }

    /// Start a `RELATE` statement.
    pub fn relate(self, node: &str) -> (r: Self)
        ensures
            r.segs() == push_seg(push_seg(self.segs(), "RELATE"@), node@),
            r.parameters == self.parameters,
            r.storage == self.storage,
    {
        let mut s = self;
        s.add_segment_p("RELATE", node);
        s
    }

    /// Start a `CONTENT` statement.
    pub fn content(self, json_content: &str) -> (r: Self)
        ensures
            r.segs() == push_seg(push_seg(self.segs(), "CONTENT"@), json_content@),
            r.parameters == self.parameters,
            r.storage == self.storage,
    {
        let mut s = self;
        s.add_segment_p("CONTENT", json_content);
        s
    }

    /// Start a `FROM` clause.
    pub fn from(self, node: &str) -> (r: Self)
        ensures
            r.segs() == push_seg(push_seg(self.segs(), "FROM"@), node@),
            r.parameters == self.parameters,
            r.storage == self.storage,
    {
        let mut s = self;
        s.add_segment_p("FROM", node);
        s
    }

    /// Adds the given segments, separated by `seperator`, each wrapped in
    /// `prefix` and `suffix`.
    fn join_segments(&mut self, seperator: &str, prefix: &str, segments: &[&str], suffix: &str)
        ensures
            final(self).segs() == old(self).segs() + join_items(
                segments@.map(|_i: int, s: &str| s@),
                seperator@,
                prefix@,
                suffix@,
            ),
            final(self).parameters == old(self).parameters,
            final(self).storage == old(self).storage,
    {
        let ghost items = segments@.map(|_i: int, s: &str| s@);
        let count = segments.len();
        if count == 0 {
            proof {
                assert(old(self).segs() + join_items(items, seperator@, prefix@, suffix@)
                    =~= old(self).segs());
            }
            return ;
        }
        let mut i: usize = 0;
        proof {
            assert(items.skip(0) =~= items);
        }
        while i < count - 1
            invariant
                count == segments@.len(),
                count >= 1,
                i <= count - 1,
                items == segments@.map(|_i: int, s: &str| s@),
                self.parameters == old(self).parameters,
                self.storage == old(self).storage,
                old(self).segs() + join_items(items, seperator@, prefix@, suffix@)
                    == self.segs() + join_items(
                    items.skip(i as int),
                    seperator@,
                    prefix@,
                    suffix@,
                ),
            decreases count - i,
        {
            let ghost before = self.segs();
            let seg = *vstd::slice::slice_index_get(segments, i);
            self.add_segment_ps(prefix, seg, suffix);
            self.add_segment(seperator);
            proof {
                let rest = items.skip(i as int);
                assert(rest.len() >= 2);
                assert(rest[0] == items[i as int]);
                assert(rest.skip(1) =~= items.skip(i as int + 1));
                assert(self.segs() =~= (before + seg_ps(prefix@, rest[0], suffix@))
                    + push_seg(Seq::empty(), seperator@));
                assert(before + ((seg_ps(prefix@, rest[0], suffix@) + push_seg(
                    Seq::empty(),
                    seperator@,
                )) + join_items(rest.skip(1), seperator@, prefix@, suffix@)) =~= ((before
                    + seg_ps(prefix@, rest[0], suffix@)) + push_seg(Seq::empty(), seperator@))
                    + join_items(rest.skip(1), seperator@, prefix@, suffix@));
            }
            i = i + 1;
        }
        let ghost before = self.segs();
        let seg = *vstd::slice::slice_index_get(segments, count - 1);
        self.add_segment_ps(prefix, seg, suffix);
        proof {
            let rest = items.skip(count - 1);
            assert(rest.len() == 1);
            assert(rest[0] == items[count - 1]);
            assert(join_items(rest, seperator@, prefix@, suffix@) == seg_ps(
                prefix@,
                rest[0],
                suffix@,
            ));
            assert(self.segs() =~= before + seg_ps(prefix@, rest[0], suffix@));
        }
    }

    /// Start a `SELECT` clause over several nodes, comma-separated.
    pub fn select_many(self, nodes: &[&str]) -> (r: Self)
        ensures
            r.segs() == self.segs().push("SELECT"@) + join_items(
                nodes@.map(|_i: int, s: &str| s@),
                ","@,
                ""@,
                ""@,
            ),
            r.parameters == self.parameters,
            r.storage == self.storage,
    {
        let mut s = self;
        s.add_segment("SELECT");
        proof {
            reveal_strlit("SELECT");
        }
        s.join_segments(",", "", nodes, "");
        s
    }

    /// Adds the supplied query with a comma in front of it.
    pub fn also(self, query: &str) -> (r: Self)
        ensures
            r.segs() == push_seg(push_seg(self.segs(), ","@), query@),
            r.parameters == self.parameters,
            r.storage == self.storage,
    {
        let mut s = self;
        s.add_segment_p(",", query);
        s
    }

    /// Starts a `WHERE` clause.
    pub fn filter(self, condition: &str) -> (r: Self)
        ensures
            r.segs() == push_seg(push_seg(self.segs(), "WHERE"@), condition@),
            r.parameters == self.parameters,
            r.storage == self.storage,
    {
        let mut s = self;
        s.add_segment_p("WHERE", condition);
        s
    }

    /// An alias for [`QueryBuilder::filter`].
    pub fn and_where(self, condition: &str) -> (r: Self)
        ensures
            r.segs() == push_seg(push_seg(self.segs(), "WHERE"@), condition@),
            r.parameters == self.parameters,
            r.storage == self.storage,
    {
        self.filter(condition)
    }

    /// Writes an `OR` followed by the supplied condition.
    pub fn or(self, condition: &str) -> (r: Self)
        ensures
            r.segs() == push_seg(push_seg(self.segs(), "OR"@), condition@),
            r.parameters == self.parameters,
            r.storage == self.storage,
    {
        let mut s = self;
        s.add_segment_p("OR", condition);
        s
    }

    /// Writes an `AND` followed by the supplied condition.
    pub fn and(self, condition: &str) -> (r: Self)
        ensures
            r.segs() == push_seg(push_seg(self.segs(), "AND"@), condition@),
            r.parameters == self.parameters,
            r.storage == self.storage,
    {
        let mut s = self;
        s.add_segment_p("AND", condition);
        s
    }

    /// Starts a `SET` clause.
    pub fn set(self, update: &str) -> (r: Self)
        ensures
            r.segs() == push_seg(push_seg(self.segs(), "SET"@), update@),
            r.parameters == self.parameters,
            r.storage == self.storage,
    {
        let mut s = self;
        s.add_segment_p("SET", update);
        s
    }

    /// Starts a `SET` clause with many updates, comma-separated. The segments
    /// are resolved against this builder's storage (see
    /// [`QueryBuilder::hold`]).
    pub fn set_many(self, updates: &Vec<QueryBuilderSegment>) -> (r: Self)
        ensures
            r.segs() == self.segs().push("SET"@) + join_items(
                updates@.map(|_i: int, u: QueryBuilderSegment| self.seg_value(u)),
                ","@,
                ""@,
                ""@,
            ),
            r.parameters == self.parameters,
            r.storage == self.storage,
    {
        let ghost orig = self;
        let mut s = self;
        s.add_segment("SET");
        proof {
            reveal_strlit("SET");
        }
        let mut resolved: Vec<String> = Vec::new();
        let mut i: usize = 0;
        while i < updates.len()
            invariant
                i <= updates@.len(),
                s.storage == orig.storage,
                s.parameters == orig.parameters,
                s.segs() == orig.segs().push("SET"@),
                resolved@.len() == i,
                forall|k: int| 0 <= k < i ==> resolved@[k]@ == orig.seg_value(updates@[k]),
            decreases updates.len() - i,
        {
            let entry: String = match &updates[i] {
                QueryBuilderSegment::Str(t) => t.clone(),
                QueryBuilderSegment::Ref(idx) => {
                    if *idx < s.storage.len() {
                        s.storage[*idx].clone()
                    } else {
                        String::new()
                    }
                },
            };
            proof {
                assert(entry@ == orig.seg_value(updates@[i as int]));
            }
            resolved.push(entry);
            i = i + 1;
        }
        let mut refs: Vec<&str> = Vec::new();
        let mut j: usize = 0;
        while j < resolved.len()
            invariant
                j <= resolved@.len(),
                resolved@.len() == updates@.len(),
                forall|k: int| 0 <= k < resolved@.len() ==> resolved@[k]@ == orig.seg_value(
                    updates@[k],
                ),
                refs@.len() == j,
                forall|k: int| 0 <= k < j ==> refs@[k]@ == resolved@[k]@,
            decreases resolved.len() - j,
        {
            refs.push(resolved[j].as_str());
            j = j + 1;
        }
        proof {
            let lhs = refs@.map(|_i: int, t: &str| t@);
            let rhs = updates@.map(|_i: int, u: QueryBuilderSegment| orig.seg_value(u));
            assert forall|k: int| 0 <= k < lhs.len() implies lhs[k] == rhs[k] by {
                assert(lhs[k] == refs@[k]@);
                assert(rhs[k] == orig.seg_value(updates@[k]));
            }
            assert(lhs =~= rhs);
        }
        s.join_segments(",", "", refs.as_slice(), "");
        s
    }

    /// Starts a `FETCH` clause.
    pub fn fetch(self, field: &str) -> (r: Self)
        ensures
            r.segs() == push_seg(push_seg(self.segs(), "FETCH"@), field@),
            r.parameters == self.parameters,
            r.storage == self.storage,
    {
        let mut s = self;
        s.add_segment_p("FETCH", field);
        s
    }

    /// Starts a `FETCH` clause with zero or more fields, comma-separated.
    pub fn fetch_many(self, fields: &[&str]) -> (r: Self)
        ensures
            r.segs() == self.segs().push("FETCH"@) + join_items(
                fields@.map(|_i: int, s: &str| s@),
                ","@,
                ""@,
                ""@,
            ),
            r.parameters == self.parameters,
            r.storage == self.storage,
    {
        let mut s = self;
        s.add_segment("FETCH");
        proof {
            reveal_strlit("FETCH");
        }
        s.join_segments(",", "", fields, "");
        s
    }

    /// Starts a `GROUP BY` clause.
    pub fn group_by(self, field: &str) -> (r: Self)
        ensures
            r.segs() == push_seg(push_seg(self.segs(), "GROUP BY"@), field@),
            r.parameters == self.parameters,
            r.storage == self.storage,
    {
        let mut s = self;
        s.add_segment_p("GROUP BY", field);
        s
    }

    /// Starts a `GROUP BY` clause with zero or more fields, comma-separated.
    pub fn group_by_many(self, fields: &[&str]) -> (r: Self)
        ensures
            r.segs() == self.segs().push("GROUP BY"@) + join_items(
                fields@.map(|_i: int, s: &str| s@),
                ","@,
                ""@,
                ""@,
            ),
            r.parameters == self.parameters,
            r.storage == self.storage,
    {
        let mut s = self;
        s.add_segment("GROUP BY");
        proof {
            reveal_strlit("GROUP BY");
        }
        s.join_segments(",", "", fields, "");
        s
    }

    /// Starts an `ORDER BY … ASC` clause.
    pub fn order_by_asc(self, field: &str) -> (r: Self)
        ensures
            r.segs() == push_seg(
                push_seg(push_seg(self.segs(), "ORDER BY"@), field@),
                "ASC"@,
            ),
            r.parameters == self.parameters,
            r.storage == self.storage,
    {
        let mut s = self;
        s.add_segment_ps("ORDER BY", field, "ASC");
        s
    }

    /// Starts an `ORDER BY … ASC` clause with zero or more fields.
    pub fn order_by_asc_many(self, fields: &[&str]) -> (r: Self)
        ensures
            r.segs() == self.segs().push("ORDER BY"@) + join_items(
                fields@.map(|_i: int, s: &str| s@),
                ","@,
                ""@,
                "ASC"@,
            ),
            r.parameters == self.parameters,
            r.storage == self.storage,
    {
        let mut s = self;
        s.add_segment("ORDER BY");
        proof {
            reveal_strlit("ORDER BY");
        }
        s.join_segments(",", "", fields, "ASC");
        s
    }

    /// Starts an `ORDER BY … DESC` clause.
    pub fn order_by_desc(self, field: &str) -> (r: Self)
        ensures
            r.segs() == push_seg(
                push_seg(push_seg(self.segs(), "ORDER BY"@), field@),
                "DESC"@,
            ),
            r.parameters == self.parameters,
            r.storage == self.storage,
    {
        let mut s = self;
        s.add_segment_ps("ORDER BY", field, "DESC");
        s
    }

    /// Starts an `ORDER BY … DESC` clause with zero or more fields.
    pub fn order_by_desc_many(self, fields: &[&str]) -> (r: Self)
        ensures
            r.segs() == self.segs().push("ORDER BY"@) + join_items(
                fields@.map(|_i: int, s: &str| s@),
                ","@,
                ""@,
                "DESC"@,
            ),
            r.parameters == self.parameters,
            r.storage == self.storage,
    {
        let mut s = self;
        s.add_segment("ORDER BY");
        proof {
            reveal_strlit("ORDER BY");
        }
        s.join_segments(",", "", fields, "DESC");
        s
    }

    /// Applies `action` when `condition` holds, and leaves the builder
    /// untouched otherwise.
    pub fn if_then<F: Fn(Self) -> Self>(self, condition: bool, action: F) -> (r: Self)
        requires
            condition ==> action.requires((self,)),
        ensures
            !condition ==> r == self,
            condition ==> action.ensures((self,), r),
    {
        if !condition {
            return self;
        }
        action(self)
    }

    /// Writes an `AND` followed by `first_condition` and everything `action`
    /// adds, wrapped in parentheses.
    pub fn and_group<F: Fn(Self) -> Self>(self, first_condition: &str, action: F) -> (r: Self)
        requires
            forall|q: Self| #[trigger] action.requires((q,)),
        ensures
            exists|q: Self, mid: Self|
                {
                    &&& q.segs() == push_seg(
                        self.segs().push("AND"@).push("("@),
                        first_condition@,
                    )
                    &&& q.parameters == self.parameters
                    &&& q.storage == self.storage
                    &&& #[trigger] action.ensures((q,), mid)
                    &&& r.segs() == mid.segs().push(")"@)
                    &&& r.parameters == mid.parameters
                    &&& r.storage == mid.storage
                },
    {
        let ghost orig = self;
        let mut s = self;
        s.add_segment_p("AND", "(");
        s.add_segment(first_condition);
        proof {
            reveal_strlit("AND");
            reveal_strlit("(");
        }
        let ghost q_snapshot = s;
        let mid = action(s);
        let ghost mid_snapshot = mid;
        let mut output = mid;
        output.add_segment(")");
        proof {
            reveal_strlit(")");
            assert(q_snapshot.segs() == push_seg(
                orig.segs().push("AND"@).push("("@),
                first_condition@,
            ));
            assert(action.ensures((q_snapshot,), mid_snapshot));
            assert(output.segs() == mid_snapshot.segs().push(")"@));
        }
        output
    }

    /// Pushes raw text to the buffer.
    pub fn raw(self, text: &str) -> (r: Self)
        ensures
            r.segs() == push_seg(self.segs(), text@),
            r.parameters == self.parameters,
            r.storage == self.storage,
    {
        let mut s = self;
        s.add_segment(text);
        s
    }

    /// Appends every segment of `other`, with `sep` between consecutive
    /// entries; `other`'s replacement pairs and storage are discarded.
    pub fn splice(self, other: Self, sep: &str) -> (r: Self)
        ensures
            r.segs() == self.segs() + interleave(other.segs(), sep@),
            r.parameters == self.parameters,
            r.storage == self.storage,
    {
        let ghost orig = self;
        let ghost others = other.segs();
        let mut s = self;
        let mut i: usize = 0;
        while i < other.segments.len()
            invariant
                i <= other.segments@.len(),
                others == other.segs(),
                s.parameters == orig.parameters,
                s.storage == orig.storage,
                i == 0 ==> s.segs() == orig.segs(),
                i > 0 ==> s.segs() == orig.segs() + interleave(others.take(i as int), sep@),
            decreases other.segments.len() - i,
        {
            let ghost before = s.segs();
            if i > 0 {
                s.segments.push(sep.to_owned());
            }
            s.segments.push(other.segments[i].clone());
            proof {
                if i == 0 {
                    assert(s.segs() =~= before.push(others[0]));
                    assert(others.take(1) =~= seq![others[0]]);
                    assert(interleave(others.take(1), sep@) == seq![others.take(1)[0]]);
                    assert(orig.segs() + seq![others[0]] =~= orig.segs().push(others[0]));
                } else {
                    assert(s.segs() =~= before.push(sep@).push(others[i as int]));
                    lemma_interleave_snoc(others, sep@, i as int);
                    assert(orig.segs() + (interleave(others.take(i as int), sep@) + seq![
                        sep@,
                        others[i as int],
                    ]) =~= (orig.segs() + interleave(others.take(i as int), sep@)).push(
                        sep@,
                    ).push(others[i as int]));
                }
            }
            i = i + 1;
        }
        proof {
            if other.segments@.len() == 0 {
                assert(interleave(others, sep@) == Seq::<Seq<char>>::empty());
                assert(orig.segs() + interleave(others, sep@) =~= orig.segs());
            } else {
                assert(others.take(others.len() as int) =~= others);
            }
        }
        s
    }

    /// Appends every segment of `other`, with `sep` between consecutive
    /// entries except around boolean joiner tokens (`AND`, `OR`), which
    /// override the separator for their scope; `other`'s replacement pairs
    /// and storage are discarded.
    pub fn splice_conditions(self, other: Self, sep: &str) -> (r: Self)
        ensures
            r.segs() == self.segs() + cond_interleave(other.segs(), sep@),
            r.parameters == self.parameters,
            r.storage == self.storage,
    {
        let ghost orig = self;
        let ghost others = other.segs();
        let mut s = self;
        let mut i: usize = 0;
        while i < other.segments.len()
            invariant
                i <= other.segments@.len(),
                others == other.segs(),
                s.parameters == orig.parameters,
                s.storage == orig.storage,
                i == 0 ==> s.segs() == orig.segs(),
                i > 0 ==> s.segs() == orig.segs() + cond_interleave(
                    others.take(i as int),
                    sep@,
                ),
            decreases other.segments.len() - i,
        {
            let ghost before = s.segs();
            if i > 0 {
                let prev_join = crate::text::str_eq(other.segments[i - 1].as_str(), "AND")
                    || crate::text::str_eq(other.segments[i - 1].as_str(), "OR");
                let cur_join = crate::text::str_eq(other.segments[i].as_str(), "AND")
                    || crate::text::str_eq(other.segments[i].as_str(), "OR");
                if !prev_join && !cur_join {
                    s.segments.push(sep.to_owned());
                }
                proof {
                    assert(prev_join == is_joiner(others[i - 1]));
                    assert(cur_join == is_joiner(others[i as int]));
                }
            }
            s.segments.push(other.segments[i].clone());
            proof {
                if i == 0 {
                    assert(s.segs() =~= before.push(others[0]));
                    assert(others.take(1) =~= seq![others[0]]);
                    assert(cond_interleave(others.take(1), sep@) == seq![others.take(1)[0]]);
                    assert(orig.segs() + seq![others[0]] =~= orig.segs().push(others[0]));
                } else {
                    lemma_cond_interleave_snoc(others, sep@, i as int);
                    if is_joiner(others[i - 1]) || is_joiner(others[i as int]) {
                        assert(s.segs() =~= before.push(others[i as int]));
                        assert(orig.segs() + (cond_interleave(others.take(i as int), sep@)
                            + seq![others[i as int]]) =~= (orig.segs() + cond_interleave(
                            others.take(i as int),
                            sep@,
                        )).push(others[i as int]));
                    } else {
                        assert(s.segs() =~= before.push(sep@).push(others[i as int]));
                        assert(orig.segs() + (cond_interleave(others.take(i as int), sep@)
                            + seq![sep@, others[i as int]]) =~= (orig.segs()
                            + cond_interleave(others.take(i as int), sep@)).push(sep@).push(
                            others[i as int],
                        ));
                    }
                }
            }
            i = i + 1;
        }
        proof {
            if other.segments@.len() == 0 {
                assert(cond_interleave(others, sep@) == Seq::<Seq<char>>::empty());
                assert(orig.segs() + cond_interleave(others, sep@) =~= orig.segs());
            } else {
                assert(others.take(others.len() as int) =~= others);
            }
        }
        s
    }

    /// Runs `action` on a fresh builder and splices the produced segments
    /// into this one, comma-separated.
    pub fn commas<F: Fn(Self) -> Self>(self, action: F) -> (r: Self)
        requires
            forall|q: Self| q.is_empty_builder() ==> #[trigger] action.requires((q,)),
        ensures
            exists|q: Self, sub: Self|
                {
                    &&& q.is_empty_builder()
                    &&& #[trigger] action.ensures((q,), sub)
                    &&& r.segs() == self.segs() + interleave(sub.segs(), ","@)
                    &&& r.parameters == self.parameters
                    &&& r.storage == self.storage
                },
    {
        let fresh = QueryBuilder::new();
        let ghost q_snapshot = fresh;
        let sub = action(fresh);
        let ghost sub_snapshot = sub;
        let r = self.splice(sub, ",");
        proof {
            assert(action.ensures((q_snapshot,), sub_snapshot));
        }
        r
    }

    /// Start a `LIMIT` clause.
    pub fn limit(self, limit: &str) -> (r: Self)
        ensures
            r.segs() == push_seg(push_seg(self.segs(), "LIMIT"@), limit@),
            r.parameters == self.parameters,
            r.storage == self.storage,
    {
        let mut s = self;
        s.add_segment_p("LIMIT", limit);
        s
    }

    /// Start a `START AT` clause.
    pub fn start_at(self, offset: &str) -> (r: Self)
        ensures
            r.segs() == push_seg(push_seg(self.segs(), "START AT"@), offset@),
            r.parameters == self.parameters,
            r.storage == self.storage,
    {
        let mut s = self;
        s.add_segment_p("START AT", offset);
        s
    }

    /// Registers a replacement pair: at build time every occurrence of `key`
    /// in the joined query is rewritten to `value`, pairs applied in
    /// insertion order. Not meant for user-provided data: the input is not
    /// sanitized.
    pub fn param(self, key: &str, value: &str) -> (r: Self)
        ensures
            r.segs() == self.segs(),
            r.params_view() == self.params_view().push((key@, value@)),
            r.storage == self.storage,
    {
        let ghost orig = self;
        let mut s = self;
        s.parameters.push((key.to_owned(), value.to_owned()));
        proof {
            assert(s.params_view() =~= orig.params_view().push((key@, value@)));
        }
        s
    }

    /// Joins the segments with single spaces, then applies each replacement
    /// pair in insertion order.
    pub fn build(self) -> (r: String)
        ensures
            r@ == spec_apply_params(spec_join(self.segs()), self.params_view()),
    {
        let mut output = join_with_spaces(&self.segments);
        let ghost params = self.params_view();
        let ghost joined = spec_join(self.segs());
        proof {
            assert(params.take(0) =~= Seq::<(Seq<char>, Seq<char>)>::empty());
        }
        let mut i: usize = 0;
        while i < self.parameters.len()
            invariant
                i <= self.parameters@.len(),
                params == self.params_view(),
                joined == spec_join(self.segs()),
                output@ == spec_apply_params(joined, params.take(i as int)),
            decreases self.parameters.len() - i,
        {
            output = replace_str(output.as_str(), self.parameters[i].0.as_str(),
                self.parameters[i].1.as_str());
            proof {
                lemma_apply_params_snoc(joined, params, i as int);
            }
            i = i + 1;
        }
        proof {
            assert(params.take(params.len() as int) =~= params);
        }
        output
    }

    /// Runs the [`QueryBuilderObject`] impl of `T` on this builder; what is
    /// added is up to that implementation.
    pub fn set_object<T: QueryBuilderObject>(self) -> Self {
        T::set_querybuilder_object(self)
    }

    /// Holds the given string in the builder's internal storage and returns
    /// a segment referring to it, usable with [`QueryBuilder::set_many`].
    pub fn hold(&mut self, string: String) -> (r: QueryBuilderSegment)
        ensures
            final(self).segments == old(self).segments,
            final(self).parameters == old(self).parameters,
            final(self).storage@ == old(self).storage@.push(string),
            r matches QueryBuilderSegment::Ref(i) && i == old(self).storage@.len(),
    {
        let i = self.storage.len();
        self.storage.push(string);
        QueryBuilderSegment::Ref(i)
    }
}

/// Converts a type into a series of `SET`-style statements on a builder;
/// implemented by callers for their own record types.
pub trait QueryBuilderObject {
    fn set_querybuilder_object(querybuilder: QueryBuilder) -> QueryBuilder;
}

/// Conversion of a value into a [`QueryBuilderSegment`], holding it in the
/// builder's storage when it is an owned string.
pub trait IntoQueryBuilderSegment {
    fn into(self, querybuilder: &mut QueryBuilder) -> (r: QueryBuilderSegment)
        ensures
            final(querybuilder).segments == old(querybuilder).segments,
            final(querybuilder).parameters == old(querybuilder).parameters,
    ;
}

impl IntoQueryBuilderSegment for &str {
    fn into(self, _querybuilder: &mut QueryBuilder) -> (r: QueryBuilderSegment) {
        QueryBuilderSegment::Str(self.to_owned())
    }
}

impl IntoQueryBuilderSegment for String {
    fn into(self, querybuilder: &mut QueryBuilder) -> (r: QueryBuilderSegment) {
        querybuilder.hold(self)
    }
}

impl IntoQueryBuilderSegment for QueryBuilderSegment {
    fn into(self, _querybuilder: &mut QueryBuilder) -> (r: QueryBuilderSegment) {
        self
    }
}

/// For `1 <= i < items.len()`: interleaving one more entry appends the
/// separator and that entry.
pub proof fn lemma_interleave_snoc(items: Seq<Seq<char>>, sep: Seq<char>, i: int)
    requires
        1 <= i < items.len(),
    ensures
        interleave(items.take(i + 1), sep) == interleave(items.take(i), sep) + seq![
            sep,
            items[i],
        ],
    decreases i,
{
    if i == 1 {
        assert(items.take(2) =~= seq![items[0], items[1]]);
        assert(items.take(2).skip(1) =~= seq![items[1]]);
        assert(interleave(items.take(2).skip(1), sep) == seq![items.take(2).skip(1)[0]]);
        assert(items.take(1) =~= seq![items[0]]);
        assert(interleave(items.take(2), sep) =~= interleave(items.take(1), sep) + seq![
            sep,
            items[1],
        ]);
    } else {
        lemma_interleave_snoc(items.skip(1), sep, i - 1);
        assert(items.take(i + 1)[0] == items[0]);
        assert(items.take(i + 1).skip(1) =~= items.skip(1).take(i));
        assert(items.take(i)[0] == items[0]);
        assert(items.take(i).skip(1) =~= items.skip(1).take(i - 1));
        assert(items.skip(1)[i - 1] == items[i as int]);
        assert(interleave(items.take(i + 1), sep) =~= seq![items[0], sep] + interleave(
            items.skip(1).take(i),
            sep,
        ));
        assert(interleave(items.take(i), sep) =~= seq![items[0], sep] + interleave(
            items.skip(1).take(i - 1),
            sep,
        ));
        assert((seq![items[0], sep] + interleave(items.skip(1).take(i - 1), sep)) + seq![
            sep,
            items[i as int],
        ] =~= seq![items[0], sep] + (interleave(items.skip(1).take(i - 1), sep) + seq![
            sep,
            items[i as int],
        ]));
    }
}

/// For `1 <= i < items.len()`: extending a condition list appends that entry,
/// with the separator only when neither neighbour is a joiner token.
pub proof fn lemma_cond_interleave_snoc(items: Seq<Seq<char>>, sep: Seq<char>, i: int)
    requires
        1 <= i < items.len(),
    ensures
        cond_interleave(items.take(i + 1), sep) == cond_interleave(items.take(i), sep) + (
        if is_joiner(items[i - 1]) || is_joiner(items[i]) {
            seq![items[i]]
        } else {
            seq![sep, items[i]]
        }),
    decreases i,
{
    let tail = if is_joiner(items[i - 1]) || is_joiner(items[i]) {
        seq![items[i]]
    } else {
        seq![sep, items[i]]
    };
    if i == 1 {
        assert(items.take(2) =~= seq![items[0], items[1]]);
        assert(items.take(2).skip(1) =~= seq![items[1]]);
        assert(cond_interleave(items.take(2).skip(1), sep) == seq![items.take(2).skip(1)[0]]);
        assert(items.take(1) =~= seq![items[0]]);
        assert(cond_interleave(items.take(1), sep) == seq![items.take(1)[0]]);
        if is_joiner(items[0]) || is_joiner(items[1]) {
            assert(cond_interleave(items.take(2), sep) =~= cond_interleave(items.take(1), sep)
                + tail);
        } else {
            assert(cond_interleave(items.take(2), sep) =~= cond_interleave(items.take(1), sep)
                + tail);
        }
    } else {
        lemma_cond_interleave_snoc(items.skip(1), sep, i - 1);
        assert(items.take(i + 1)[0] == items[0]);
        assert(items.take(i + 1)[1] == items[1]);
        assert(items.take(i + 1).skip(1) =~= items.skip(1).take(i));
        assert(items.take(i)[0] == items[0]);
        assert(items.take(i)[1] == items[1]);
        assert(items.take(i).skip(1) =~= items.skip(1).take(i - 1));
        assert(items.skip(1)[i - 2] == items[i - 1]);
        assert(items.skip(1)[i - 1] == items[i]);
        let head = if is_joiner(items[0]) || is_joiner(items[1]) {
            seq![items[0]]
        } else {
            seq![items[0], sep]
        };
        assert(cond_interleave(items.take(i + 1), sep) == head + cond_interleave(
            items.skip(1).take(i),
            sep,
        ));
        assert(cond_interleave(items.take(i), sep) == head + cond_interleave(
            items.skip(1).take(i - 1),
            sep,
        ));
        assert((head + cond_interleave(items.skip(1).take(i - 1), sep)) + tail =~= head + (
        cond_interleave(items.skip(1).take(i - 1), sep) + tail));
    }
}

proof fn lemma_apply_params_snoc(text: Seq<char>, params: Seq<(Seq<char>, Seq<char>)>, i: int)
    requires
        0 <= i < params.len(),
    ensures
        spec_apply_params(text, params.take(i + 1)) == spec_replace(
            spec_apply_params(text, params.take(i)),
            params[i].0,
            params[i].1,
        ),
    decreases i,
{
    let t2 = spec_replace(text, params[0].0, params[0].1);
    if i == 0 {
        assert(params.take(1).len() == 1);
        assert(params.take(1)[0] == params[0]);
        assert(params.take(1).skip(1) =~= Seq::<(Seq<char>, Seq<char>)>::empty());
        assert(params.take(0) =~= Seq::<(Seq<char>, Seq<char>)>::empty());
        assert(spec_apply_params(text, params.take(0)) == text);
        assert(spec_apply_params(t2, params.take(1).skip(1)) == t2);
        assert(spec_apply_params(text, params.take(1)) == spec_apply_params(
            t2,
            params.take(1).skip(1),
        ));
    } else {
        assert(params.take(i + 1)[0] == params[0]);
        assert(params.take(i + 1).skip(1) =~= params.skip(1).take(i));
        assert(params.take(i)[0] == params[0]);
        assert(params.take(i).skip(1) =~= params.skip(1).take(i - 1));
        assert(params.skip(1)[i - 1] == params[i]);
        lemma_apply_params_snoc(t2, params.skip(1), i - 1);
        assert(spec_apply_params(text, params.take(i + 1)) == spec_apply_params(
            t2,
            params.take(i + 1).skip(1),
        ));
        assert(spec_apply_params(text, params.take(i)) == spec_apply_params(
            t2,
            params.take(i).skip(1),
        ));
    }
}

} // verus!
