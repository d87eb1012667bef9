//! A schema field: a wire identifier plus the origin path it was reached
//! through; displays as the joined path.

use vstd::prelude::*;

use crate::model::origin_holder::OriginHolder;
use crate::model::origin_holder::render_path;
use crate::model::origin_holder::segment_starts_arrow;
use crate::model::origin_holder::sep_before;
use crate::text::spec_undot;
use crate::text::undot;

verus! {

/// A field of a model schema: its wire identifier and the optional origin
/// path accumulated by traversals; read-only after construction.
pub struct SchemaField {
    pub identifier: String,
    pub origin: Option<OriginHolder>,
}

impl SchemaField {
    /// The full segment list: origin segments (if any) followed by the
    /// identifier.
    pub open spec fn full_segs(&self) -> Seq<Seq<char>> {
        match self.origin {
            Option::Some(o) => o.seg_views().push(self.identifier@),
            Option::None => seq![self.identifier@],
        }
    }

    /// The rendered path of this field.
    pub open spec fn path(&self) -> Seq<char> {
        render_path(self.full_segs())
    }

    /// A field at the root of a model, with no origin.
    pub fn new(identifier: &str) -> (r: Self)
        ensures
            r.identifier@ == identifier@,
            r.origin is None,
    {
        SchemaField { identifier: identifier.to_owned(), origin: None }
    }

    /// A field reached through the given origin.
    pub fn with_origin(identifier: &str, origin: Option<OriginHolder>) -> (r: Self)
        ensures
            r.identifier@ == identifier@,
            match origin {
                Option::Some(o) => r.origin matches Option::Some(ro) && ro.seg_views()
                    == o.seg_views(),
                Option::None => r.origin is None,
            },
    {
        SchemaField { identifier: identifier.to_owned(), origin }
    }

    /// A new field whose origin is prefixed by `alias`, so the rendered path
    /// reads from that alias; the identifier is kept.
    pub fn from_alias(self, alias: &str) -> (r: Self)
        ensures
            r.identifier@ == self.identifier@,
            r.origin matches Option::Some(o) && o.seg_views() == seq![alias@] + (
            match self.origin {
                Option::Some(old_origin) => old_origin.seg_views(),
                Option::None => Seq::<Seq<char>>::empty(),
            }),
    {
        let mut segments: Vec<String> = Vec::new();
        segments.push(alias.to_owned());
        let mut r = SchemaField { identifier: self.identifier, origin: None };
        match self.origin {
            Some(old_origin) => {
                let mut i: usize = 0;
                while i < old_origin.segments.len()
                    invariant
                        i <= old_origin.segments@.len(),
                        segments@.len() == i + 1,
                        segments@[0]@ == alias@,
                        forall|k: int| 0 <= k < i ==> segments@[k + 1]@
                            == old_origin.segments@[k]@,
                    decreases old_origin.segments.len() - i,
                {
                    segments.push(old_origin.segments[i].clone());
                    i = i + 1;
                }
                let holder = OriginHolder { segments };
                proof {
                    assert(holder.seg_views() =~= seq![alias@] + old_origin.seg_views());
                }
                r.origin = Some(holder);
            },
            None => {
                let holder = OriginHolder { segments };
                proof {
                    assert(holder.seg_views() =~= seq![alias@] + Seq::<Seq<char>>::empty());
                }
                r.origin = Some(holder);
            },
        }
        r
    }

    /// Renders the joined path plus the identifier.
    pub fn to_string(&self) -> (r: String)
        ensures
            r@ == self.path(),
    {
        match &self.origin {
            None => {
                let r = self.identifier.clone();
                proof {
                    assert(render_path(self.full_segs()) == self.identifier@);
                }
                r
            },
            Some(o) => {
                if o.segments.len() == 0 {
                    let r = self.identifier.clone();
                    proof {
                        assert(o.seg_views().push(self.identifier@).drop_last() =~= o.seg_views());
                        assert(render_path(self.full_segs()) == self.identifier@);
                    }
                    r
                } else {
                    let mut out = o.to_string();
                    if !segment_starts_arrow(self.identifier.as_str()) {
                        out.append(".");
                        proof {
                            reveal_strlit(".");
                        }
                    }
                    out.append(self.identifier.as_str());
                    proof {
                        let full = self.full_segs();
                        assert(full.drop_last() =~= o.seg_views());
                        assert(full.last() == self.identifier@);
                        assert(out@ == render_path(o.seg_views()) + sep_before(
                            self.identifier@,
                        ) + self.identifier@);
                    }
                    out
                }
            },
        }
    }

    /// Renders `path = $path`, with dots in the parameter name replaced by
    /// underscores (a parameter name may not hold dots).
    pub fn equals_parameterized(&self) -> (r: String)
        ensures
            r@ == self.path() + " = $"@ + spec_undot(self.path()),
    {
        let rendered = self.to_string();
        let param = undot(rendered.as_str());
        let out = rendered.concat(" = $").concat(param.as_str());
        proof {
            assert(out@ =~= self.path() + " = $"@ + spec_undot(self.path()));
        }
        out
    }

    /// Renders `path = value` with a verbatim right side.
    pub fn equals(&self, value: &str) -> (r: String)
        ensures
            r@ == self.path() + " = "@ + value@,
    {
        let rendered = self.to_string();
        let out = rendered.concat(" = ").concat(value);
        proof {
            assert(out@ =~= self.path() + " = "@ + value@);
        }
        out
    }

    /// Renders `label:path`, the named-label form of this field's path.
    pub fn as_named_label(&self, label_name: &str) -> (r: String)
        ensures
            r@ == label_name@ + ":"@ + self.path(),
    {
        let rendered = self.to_string();
        let out = String::from_str(label_name).concat(":").concat(rendered.as_str());
        proof {
            assert(out@ =~= label_name@ + ":"@ + self.path());
        }
        out
    }
}

} // verus!
