//! The origin path: the ordered sequence of path segments accumulated while
//! traversing from a root model through nested fields and relations.

use vstd::prelude::*;

use crate::text::str_to_chars;

verus! {

/// Whether a segment begins with a relation joiner (`->` or `<-`); such a
/// segment carries its own joiner and takes no dot separator.
pub open spec fn starts_arrow(s: Seq<char>) -> bool {
    s.len() >= 2 && ((s[0] == '-' && s[1] == '>') || (s[0] == '<' && s[1] == '-'))
}

/// The separator written before a segment: nothing before a relation
/// segment, a dot otherwise.
pub open spec fn sep_before(s: Seq<char>) -> Seq<char> {
    if starts_arrow(s) {
        Seq::empty()
    } else {
        seq!['.']
    }
}

/// The rendered path: the segments in order, `.` between plain segments, and
/// the stored joiner token where a segment carries one.
pub open spec fn render_path(segs: Seq<Seq<char>>) -> Seq<char>
    decreases segs.len(),
{
    if segs.len() == 0 {
        Seq::empty()
    } else if segs.len() == 1 {
        segs[0]
    } else {
        render_path(segs.drop_last()) + sep_before(segs.last()) + segs.last()
    }
}

/// An ordered, fixed-at-construction sequence of path segments; every
/// traversal yields a new holder one segment longer, never mutating in place.
pub struct OriginHolder {
    pub segments: Vec<String>,
}

impl OriginHolder {
    /// The segments' views, in order.
    pub open spec fn seg_views(&self) -> Seq<Seq<char>> {
        self.segments@.map(|_i: int, s: String| s@)
    }

    /// The rendered path this origin stands for.
    pub open spec fn path(&self) -> Seq<char> {
        render_path(self.seg_views())
    }

    pub fn new(segments: Vec<String>) -> (r: Self)
        ensures
            r.segments == segments,
    {
        OriginHolder { segments }
    }

    /// A copy of this origin (segment for segment).
    pub fn dup(&self) -> (r: Self)
        ensures
            r.seg_views() == self.seg_views(),
    {
        let mut segments: Vec<String> = Vec::new();
        let mut i: usize = 0;
        while i < self.segments.len()
            invariant
                i <= self.segments@.len(),
                segments@.len() == i,
                forall|k: int| 0 <= k < i ==> segments@[k]@ == self.segments@[k]@,
            decreases self.segments.len() - i,
        {
            segments.push(self.segments[i].clone());
            i = i + 1;
        }
        let r = OriginHolder { segments };
        proof {
            assert(r.seg_views() =~= self.seg_views());
        }
        r
    }

    /// A new origin with `segment` appended; the receiver is unchanged.
    pub fn extended(&self, segment: &str) -> (r: Self)
        ensures
            r.seg_views() == self.seg_views().push(segment@),
    {
        let mut r = self.dup();
        r.segments.push(segment.to_owned());
        proof {
            assert(r.seg_views() =~= self.seg_views().push(segment@));
        }
        r
    }

    /// Renders the path (see [`render_path`]).
    pub fn to_string(&self) -> (r: String)
        ensures
            r@ == self.path(),
    {
        let ghost views = self.seg_views();
        let mut out = String::new();
        let mut i: usize = 0;
        while i < self.segments.len()
            invariant
                i <= self.segments@.len(),
                views == self.seg_views(),
                out@ == render_path(views.take(i as int)),
            decreases self.segments.len() - i,
        {
            let seg = self.segments[i].as_str();
            if i > 0 && !segment_starts_arrow(seg) {
                out.append(".");
                proof {
                    reveal_strlit(".");
                }
            }
            out.append(seg);
            proof {
                assert(views.take(i as int + 1).drop_last() =~= views.take(i as int));
                assert(views.take(i as int + 1).last() == views[i as int]);
                if i == 0 {
                    assert(render_path(views.take(1)) == views[0]);
                }
            }
            i = i + 1;
        }
        proof {
            assert(views.take(views.len() as int) =~= views);
        }
        out
    }
}

/// Whether the segment text begins with `->` or `<-`.
pub fn segment_starts_arrow(seg: &str) -> (r: bool)
    ensures
        r == starts_arrow(seg@),
{
    let v = str_to_chars(seg);
    v.len() >= 2 && ((v[0] == '-' && v[1] == '>') || (v[0] == '<' && v[1] == '-'))
}

} // verus!
