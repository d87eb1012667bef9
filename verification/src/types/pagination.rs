//! Pagination: a `LIMIT` clause over a half-open range, with `START AT` only
//! when the range does not begin at zero.

use vstd::prelude::*;

use core::ops::Range;

use crate::bindings::BindingMap;
use crate::bindings::SerializeError;
use crate::queries::QueryBuilderInjecter;
use crate::querybuilder::QueryBuilder;
use crate::querybuilder::push_seg;
use crate::text::spec_dec;
use crate::text::u64_to_string;

verus! {

/// Declares a `LIMIT` and `START AT` clause including the items of the
/// supplied range; `START AT` is omitted when the range starts at zero.
pub struct Pagination(pub Range<u64>);

impl Pagination {
    /// The number of items the range spans (zero for a backwards range).
    pub open spec fn spec_limit(&self) -> int {
        if self.0.start <= self.0.end {
            self.0.end - self.0.start
        } else {
            0
        }
    }

    pub fn new(range: Range<u64>) -> (r: Self)
        ensures
            r.0 == range,
    {
        Pagination(range)
    }

    /// The pagination of page `page` when each page holds `page_size` items;
    /// pages are counted from zero.
    pub fn new_page(page: u64, page_size: u64) -> (r: Self)
        requires
            page < u64::MAX,
            (page + 1) * page_size <= u64::MAX,
        ensures
            r.0.start == page * page_size,
            r.0.end == (page + 1) * page_size,
    {
        proof {
            assert(page * page_size <= (page + 1) * page_size) by (nonlinear_arith);
        }
        Pagination(Range { start: page * page_size, end: (page + 1) * page_size })
    }

    /// The number of items the range spans.
    pub fn limit(&self) -> (r: u64)
        ensures
            r == self.spec_limit(),
    {
        if self.0.start <= self.0.end {
            self.0.end - self.0.start
        } else {
            0
        }
    }

    /// The offset the range starts at.
    pub fn start(&self) -> (r: u64)
        ensures
            r == self.0.start,
    {
        self.0.start
    }
}

impl QueryBuilderInjecter for Pagination {
    open spec fn clause(&self) -> Seq<Seq<char>> {
        push_seg(push_seg(Seq::empty(), "LIMIT"@), spec_dec(self.spec_limit())) + (
        if self.0.start > 0 {
            push_seg(push_seg(Seq::empty(), "START AT"@), spec_dec(self.0.start as int))
        } else {
            Seq::<Seq<char>>::empty()
        })
    }

    open spec fn binds(&self) -> Map<Seq<char>, serde_json::Value> {
        Map::empty()
    }

    fn inject(&self, querybuilder: QueryBuilder) -> (r: QueryBuilder) {
        let ghost before = querybuilder.segs();
        let rendered_limit = u64_to_string(self.limit());
        let s = querybuilder.limit(rendered_limit.as_str());
        proof {
            crate::types::clause::lemma_push_seg2(before, "LIMIT"@, spec_dec(
                self.spec_limit(),
            ));
        }
        let start = self.start();
        if start > 0 {
            let ghost mid = s.segs();
            let rendered_start = u64_to_string(start);
            let r = s.start_at(rendered_start.as_str());
            proof {
                crate::types::clause::lemma_push_seg2(mid, "START AT"@, spec_dec(
                    self.0.start as int,
                ));
                assert((before + push_seg(push_seg(Seq::empty(), "LIMIT"@), spec_dec(
                    self.spec_limit(),
                ))) + push_seg(push_seg(Seq::empty(), "START AT"@), spec_dec(
                    self.0.start as int,
                )) =~= before + (push_seg(push_seg(Seq::empty(), "LIMIT"@), spec_dec(
                    self.spec_limit(),
                )) + push_seg(push_seg(Seq::empty(), "START AT"@), spec_dec(
                    self.0.start as int,
                ))));
            }
            r
        } else {
            proof {
                assert(before + self.clause() =~= before + push_seg(
                    push_seg(Seq::empty(), "LIMIT"@),
                    spec_dec(self.spec_limit()),
                ));
            }
            s
        }
    }

    fn params(self, map: &mut BindingMap) -> (r: Result<(), SerializeError>) {
        proof {
            assert(map@.union_prefer_right(self.binds()) =~= map@);
        }
        Ok(())
    }
}

} // verus!
