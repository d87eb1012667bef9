//! The library's cross-cutting guarantees, stated and proved once: path
//! chains render to the hand-written dotted form, pagination renders its
//! window, filters render and bind their comparison, tuple composition keeps
//! left-to-right clause order, and a set-object create renders its
//! assignments in the object's iteration order.

use vstd::prelude::*;

use crate::model::render_path;
use crate::model::sep_before;
use crate::model::starts_arrow;
use crate::queries::QueryBuilderInjecter;
use crate::querybuilder::cond_interleave;
use crate::querybuilder::interleave;
use crate::text::dec_digit;
use crate::text::lex_lt;
use crate::text::spec_dec;
use crate::types::Equal;
use crate::types::Object;
use crate::types::Pagination;
use crate::types::SetClause;
use crate::types::Where;
use crate::types::spec_cmp_text;
use crate::types::spec_obj_insert;

verus! {

/// The segments joined with a dot between every pair.
pub open spec fn dot_join(segs: Seq<Seq<char>>) -> Seq<char>
    decreases segs.len(),
{
    if segs.len() == 0 {
        Seq::empty()
    } else if segs.len() == 1 {
        segs[0]
    } else {
        dot_join(segs.drop_last()) + seq!['.'] + segs.last()
    }
}

/// Any traversal chain of plain (non-relation) segments renders to exactly
/// the dot-joined path a hand-written query would contain.
pub proof fn lemma_plain_chain_render(segs: Seq<Seq<char>>)
    requires
        forall|k: int| 0 <= k < segs.len() ==> !starts_arrow(#[trigger] segs[k]),
    ensures
        render_path(segs) == dot_join(segs),
    decreases segs.len(),
{
    if segs.len() > 1 {
        assert(!starts_arrow(segs.last()));
        assert(sep_before(segs.last()) == seq!['.']);
        lemma_plain_chain_render(segs.drop_last());
    }
}

/// A relation segment carries its own joiner: rendering after it inserts no
/// dot.
pub proof fn lemma_relation_segment_render(segs: Seq<Seq<char>>)
    requires
        segs.len() >= 2,
        starts_arrow(segs.last()),
    ensures
        render_path(segs) == render_path(segs.drop_last()) + segs.last(),
{
    assert(sep_before(segs.last()) == Seq::<char>::empty());
    assert(render_path(segs.drop_last()) + Seq::<char>::empty() + segs.last() =~= render_path(
        segs.drop_last(),
    ) + segs.last());
}

/// `Pagination(10..35)` renders `LIMIT 25 START AT 10`; `Pagination(0..25)`
/// omits the `START AT` clause entirely. Composed with any `Select`/`From`,
/// these segments follow theirs in order (see [`lemma_tuple_order`]).
pub proof fn lemma_pagination_window(p: Pagination)
    ensures
        p.0.start == 10 && p.0.end == 35 ==> p.clause() == seq![
            "LIMIT"@,
            "25"@,
            "START AT"@,
            "10"@,
        ],
        p.0.start == 0 && p.0.end == 25 ==> p.clause() == seq!["LIMIT"@, "25"@],
        p.0.start == 0 ==> p.clause() == seq!["LIMIT"@, spec_dec(p.spec_limit())],
{
    reveal_strlit("LIMIT");
    reveal_strlit("START AT");
    reveal_strlit("25");
    reveal_strlit("10");
    lemma_dec_len(p.spec_limit());
    assert(spec_dec(2) == seq![dec_digit(2)]);
    assert(spec_dec(25) == spec_dec(2) + seq![dec_digit(5)]);
    assert(spec_dec(25) =~= "25"@);
    assert(spec_dec(1) == seq![dec_digit(1)]);
    assert(spec_dec(10) == spec_dec(1) + seq![dec_digit(0)]);
    assert(spec_dec(10) =~= "10"@);
    if p.0.start == 10 && p.0.end == 35 {
        assert(p.spec_limit() == 25);
        assert(p.clause() =~= seq!["LIMIT"@, "25"@, "START AT"@, "10"@]);
    }
    if p.0.start == 0 {
        assert(p.clause() =~= seq!["LIMIT"@, spec_dec(p.spec_limit())]);
        if p.0.end == 25 {
            assert(p.clause() =~= seq!["LIMIT"@, "25"@]);
        }
    }
}

/// A decimal rendering always holds at least one character.
pub proof fn lemma_dec_len(n: int)
    ensures
        spec_dec(n).len() >= 1,
    decreases n,
{
    if n >= 10 {
        lemma_dec_len(n / 10);
    }
}

/// `Where(Equal((key, value)))` renders `WHERE key = $key` and binds exactly
/// `key` to the value.
pub proof fn lemma_where_equal(key: &'static str, value: serde_json::Value)
    ensures
        Where(Equal((key, value))).clause() == seq!["WHERE"@, spec_cmp_text(key@, "="@)],
        Where(Equal((key, value))).binds() == Map::<Seq<char>, serde_json::Value>::empty()
            .insert(key@, value),
{
    let w = Where(Equal((key, value)));
    assert(w.0.clause() == seq![spec_cmp_text(key@, "="@)]);
    assert(cond_interleave(w.0.clause(), "AND"@) == seq![w.0.clause()[0]]);
    assert(w.clause() =~= seq!["WHERE"@, spec_cmp_text(key@, "="@)]);
}

/// Fragments composed in a tuple contribute their clauses in exactly the
/// tuple's left-to-right order.
pub proof fn lemma_tuple_order<A: QueryBuilderInjecter, B: QueryBuilderInjecter, C: QueryBuilderInjecter>(
    a: A,
    b: B,
    c: C,
)
    ensures
        (a, b, c).clause() == a.clause() + b.clause() + c.clause(),
        (a, b, c).binds() == a.binds().union_prefer_right(b.binds()).union_prefer_right(
            c.binds(),
        ),
{
}

/// Inserting two keys in either order into an empty object yields the same
/// entries, ordered by key: a set-object's clauses follow the object's
/// (sorted) iteration order, not insertion order.
pub proof fn lemma_object_insert_order(
    ka: Seq<char>,
    va: serde_json::Value,
    kb: Seq<char>,
    vb: serde_json::Value,
)
    requires
        lex_lt(ka, kb),
    ensures
        spec_obj_insert(spec_obj_insert(Seq::empty(), ka, va), kb, vb) == seq![
            (ka, va),
            (kb, vb),
        ],
        spec_obj_insert(spec_obj_insert(Seq::empty(), kb, vb), ka, va) == seq![
            (ka, va),
            (kb, vb),
        ],
{
    lemma_lex_asym(ka, kb);
    let only_a = spec_obj_insert(Seq::empty(), ka, va);
    let only_b = spec_obj_insert(Seq::empty(), kb, vb);
    assert(only_a =~= seq![(ka, va)]);
    assert(only_b =~= seq![(kb, vb)]);
    assert(only_a[0].0 == ka);
    assert(only_a.skip(1) =~= Seq::<(Seq<char>, serde_json::Value)>::empty());
    assert(spec_obj_insert(only_a, kb, vb) =~= seq![(ka, va)] + spec_obj_insert(
        only_a.skip(1),
        kb,
        vb,
    ));
    assert(seq![(ka, va)] + seq![(kb, vb)] =~= seq![(ka, va), (kb, vb)]);
    assert(only_b[0].0 == kb);
    assert(ka != kb) by {
        if ka == kb {
            lemma_lex_irrefl(ka);
        }
    }
    assert(spec_obj_insert(only_b, ka, va) =~= seq![(ka, va)] + only_b);
    assert(seq![(ka, va)] + only_b =~= seq![(ka, va), (kb, vb)]);
}

/// Keys in strictly ascending lexicographic order (and therefore unique).
pub open spec fn sorted_entries(entries: Seq<(Seq<char>, serde_json::Value)>) -> bool {
    forall|a: int, b: int|
        0 <= a < b < entries.len() ==> lex_lt(
            #[trigger] entries[a].0,
            #[trigger] entries[b].0,
        )
}

/// Every key of an inserted entry list is the inserted key or one of the
/// old keys.
pub proof fn lemma_obj_insert_keys(
    entries: Seq<(Seq<char>, serde_json::Value)>,
    key: Seq<char>,
    value: serde_json::Value,
)
    ensures
        forall|m: int|
            0 <= m < spec_obj_insert(entries, key, value).len() ==> (
            #[trigger] spec_obj_insert(entries, key, value)[m].0) == key || (exists|n: int|
                0 <= n < entries.len() && entries[n].0 == spec_obj_insert(
                    entries,
                    key,
                    value,
                )[m].0),
    decreases entries.len(),
{
    let ins = spec_obj_insert(entries, key, value);
    if entries.len() == 0 {
    } else if lex_lt(entries[0].0, key) {
        lemma_obj_insert_keys(entries.skip(1), key, value);
        let sub = spec_obj_insert(entries.skip(1), key, value);
        assert forall|m: int| 0 <= m < ins.len() implies (#[trigger] ins[m].0) == key || (
        exists|n: int| 0 <= n < entries.len() && entries[n].0 == ins[m].0) by {
            if m == 0 {
                assert(entries[0].0 == ins[0].0);
            } else {
                assert(ins[m] == sub[m - 1]);
                if sub[m - 1].0 != key {
                    let n = choose|n: int|
                        0 <= n < entries.skip(1).len() && entries.skip(1)[n].0 == sub[m - 1].0;
                    assert(entries[n + 1].0 == ins[m].0);
                }
            }
        }
    } else if entries[0].0 == key {
        assert forall|m: int| 0 <= m < ins.len() implies (#[trigger] ins[m].0) == key || (
        exists|n: int| 0 <= n < entries.len() && entries[n].0 == ins[m].0) by {
            if m > 0 {
                assert(ins[m] == entries.skip(1)[m - 1]);
                assert(entries[m] == ins[m]);
            }
        }
    } else {
        assert forall|m: int| 0 <= m < ins.len() implies (#[trigger] ins[m].0) == key || (
        exists|n: int| 0 <= n < entries.len() && entries[n].0 == ins[m].0) by {
            if m > 0 {
                assert(ins[m] == entries[m - 1]);
            }
        }
    }
}

/// Inserting into a sorted entry list keeps it sorted: an object's iteration
/// order is always its ascending key order, whatever the insertion order.
pub proof fn lemma_obj_insert_sorted(
    entries: Seq<(Seq<char>, serde_json::Value)>,
    key: Seq<char>,
    value: serde_json::Value,
)
    requires
        sorted_entries(entries),
    ensures
        sorted_entries(spec_obj_insert(entries, key, value)),
    decreases entries.len(),
{
    let ins = spec_obj_insert(entries, key, value);
    if entries.len() == 0 {
        assert(sorted_entries(ins));
    } else if lex_lt(entries[0].0, key) {
        let rest = entries.skip(1);
        assert(sorted_entries(rest)) by {
            assert forall|a: int, b: int| 0 <= a < b < rest.len() implies lex_lt(
                #[trigger] rest[a].0,
                #[trigger] rest[b].0,
            ) by {
                assert(rest[a] == entries[a + 1]);
                assert(rest[b] == entries[b + 1]);
            }
        }
        lemma_obj_insert_sorted(rest, key, value);
        lemma_obj_insert_keys(rest, key, value);
        let sub = spec_obj_insert(rest, key, value);
        assert forall|a: int, b: int| 0 <= a < b < ins.len() implies lex_lt(
            #[trigger] ins[a].0,
            #[trigger] ins[b].0,
        ) by {
            if a == 0 {
                assert(ins[b] == sub[b - 1]);
                if sub[b - 1].0 == key {
                } else {
                    let n = choose|n: int| 0 <= n < rest.len() && rest[n].0 == sub[b - 1].0;
                    assert(rest[n] == entries[n + 1]);
                    assert(lex_lt(entries[0].0, entries[n + 1].0));
                }
            } else {
                assert(ins[a] == sub[a - 1]);
                assert(ins[b] == sub[b - 1]);
            }
        }
    } else if entries[0].0 == key {
        assert forall|a: int, b: int| 0 <= a < b < ins.len() implies lex_lt(
            #[trigger] ins[a].0,
            #[trigger] ins[b].0,
        ) by {
            if a == 0 {
                assert(ins[b] == entries.skip(1)[b - 1]);
                assert(entries[b] == ins[b]);
                assert(lex_lt(entries[0].0, entries[b].0));
            } else {
                assert(ins[a] == entries[a]);
                assert(ins[b] == entries[b]);
            }
        }
    } else {
        lemma_lex_connected(entries[0].0, key);
        assert(lex_lt(key, entries[0].0));
        assert forall|a: int, b: int| 0 <= a < b < ins.len() implies lex_lt(
            #[trigger] ins[a].0,
            #[trigger] ins[b].0,
        ) by {
            if a == 0 {
                assert(ins[b] == entries[b - 1]);
                if b > 1 {
                    lemma_lex_trans(key, entries[0].0, entries[b - 1].0);
                }
            } else {
                assert(ins[a] == entries[a - 1]);
                assert(ins[b] == entries[b - 1]);
            }
        }
    }
}

/// Lexicographic order is connected: two distinct sequences compare one way
/// or the other.
pub proof fn lemma_lex_connected(a: Seq<char>, b: Seq<char>)
    ensures
        a == b || lex_lt(a, b) || lex_lt(b, a),
    decreases a.len(),
{
    if b.len() == 0 {
        if a.len() == 0 {
            assert(a =~= b);
        }
    } else if a.len() == 0 {
    } else if (a[0] as u32) < (b[0] as u32) {
    } else if (b[0] as u32) < (a[0] as u32) {
    } else {
        let ca = a[0];
        let cb = b[0];
        assert(ca as u32 == cb as u32);
        lemma_char_code_injective(ca, cb);
        lemma_lex_connected(a.skip(1), b.skip(1));
        if a.skip(1) == b.skip(1) {
            assert(a.skip(1).len() == b.skip(1).len());
            assert(a.len() == b.len());
            assert forall|k: int| 0 <= k < a.len() implies a[k] == b[k] by {
                if k >= 1 {
                    assert(a.skip(1)[k - 1] == a[k]);
                    assert(b.skip(1)[k - 1] == b[k]);
                } else {
                    assert(a[0] == b[0]);
                }
            }
            assert(a =~= b);
        }
    }
}

/// Two characters with the same code point are the same character.
proof fn lemma_char_code_injective(c1: char, c2: char)
    requires
        c1 as u32 == c2 as u32,
    ensures
        c1 == c2,
{
}

/// Lexicographic order is transitive.
pub proof fn lemma_lex_trans(a: Seq<char>, b: Seq<char>, c: Seq<char>)
    requires
        lex_lt(a, b),
        lex_lt(b, c),
    ensures
        lex_lt(a, c),
    decreases a.len(),
{
    if a.len() > 0 && b.len() > 0 && a[0] == b[0] && c.len() > 0 && b[0] == c[0] {
        lemma_lex_trans(a.skip(1), b.skip(1), c.skip(1));
    }
}

/// Lexicographic order is irreflexive.
pub proof fn lemma_lex_irrefl(a: Seq<char>)
    ensures
        !lex_lt(a, a),
    decreases a.len(),
{
    if a.len() > 0 {
        lemma_lex_irrefl(a.skip(1));
    }
}

/// Lexicographic order is asymmetric.
pub proof fn lemma_lex_asym(a: Seq<char>, b: Seq<char>)
    requires
        lex_lt(a, b),
    ensures
        !lex_lt(b, a),
    decreases a.len(),
{
    if b.len() > 0 && a.len() > 0 && a[0] == b[0] {
        lemma_lex_asym(a.skip(1), b.skip(1));
    }
}

/// A `SET` clause over an object renders one comma-joined assignment per
/// entry, in the object's iteration order.
pub proof fn lemma_set_object_clause(obj: Object)
    requires
        obj.entries_view().len() == 2,
    ensures
        SetClause(obj).clause() == seq![
            "SET"@,
            spec_cmp_text(obj.entries_view()[0].0, "="@),
            ","@,
            spec_cmp_text(obj.entries_view()[1].0, "="@),
        ],
{
    let entries = obj.entries_view();
    let clauses = crate::types::spec_obj_clause(entries, "="@);
    assert(clauses.len() == 2);
    assert(clauses[0] == spec_cmp_text(entries[0].0, "="@));
    assert(clauses[1] == spec_cmp_text(entries[1].0, "="@));
    assert(clauses.skip(1) =~= seq![clauses[1]]);
    assert(interleave(clauses.skip(1), ","@) == seq![clauses.skip(1)[0]]);
    assert(interleave(clauses, ","@) =~= seq![clauses[0], ","@, clauses[1]]);
    assert(SetClause(obj).clause() =~= seq!["SET"@, clauses[0], ","@, clauses[1]]);
}

/// Appending a fragment to a builder never reorders or rewrites what is
/// already there: the new segments come strictly after the old ones.
pub proof fn lemma_inject_preserves_prefix<I: QueryBuilderInjecter>(
    fragment: I,
    before: Seq<Seq<char>>,
    after: Seq<Seq<char>>,
)
    requires
        after == before + fragment.clause(),
    ensures
        after.take(before.len() as int) == before,
        after.skip(before.len() as int) == fragment.clause(),
{
    assert(after.take(before.len() as int) =~= before);
    assert(after.skip(before.len() as int) =~= fragment.clause());
}

} // verus!
