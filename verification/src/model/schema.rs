//! The runtime accessor built from a parsed model: it resolves field names
//! to wire identifiers and extends the origin path on each traversal, so any
//! chain of traversals renders to exactly the path a hand-written query would
//! contain.

use vstd::prelude::*;

use crate::ast::Field;
use crate::ast::FieldView;
use crate::ast::Model;
use crate::model::origin_holder::OriginHolder;
use crate::model::schema_field::SchemaField;
use crate::text::str_eq;

verus! {

/// The segments of an optional origin (none renders as the empty path).
pub open spec fn origin_segs(o: Option<OriginHolder>) -> Seq<Seq<char>> {
    match o {
        Option::Some(h) => h.seg_views(),
        Option::None => Seq::empty(),
    }
}

/// The first field accessed under `name`, if any.
pub open spec fn spec_find_field(fields: Seq<FieldView>, name: Seq<char>) -> Option<FieldView>
    decreases fields.len(),
{
    if fields.len() == 0 {
        Option::None
    } else if fields[0].accessor() == name {
        Option::Some(fields[0])
    } else {
        spec_find_field(fields.skip(1), name)
    }
}

/// An accessor for a model: the model's label and fields plus the origin
/// path accumulated so far. Traversals yield a fresh accessor for the target
/// model with the origin one segment longer.
pub struct ModelSchema {
    pub label: String,
    pub fields: Vec<Field>,
    pub origin: Option<OriginHolder>,
}

impl ModelSchema {
    /// The fields' mathematical content.
    pub open spec fn fields_view(&self) -> Seq<FieldView> {
        self.fields@.map(|_i: int, f: Field| f.view())
    }

    /// The origin path's segments.
    pub open spec fn origin_view(&self) -> Seq<Seq<char>> {
        origin_segs(self.origin)
    }

    /// The model's label (its table name in queries).
    pub fn to_string(&self) -> (r: String)
        ensures
            r@ == self.label@,
    {
        self.label.clone()
    }

    /// The schema field accessed under `name`: its wire identifier together
    /// with this accessor's origin path.
    pub fn field(&self, name: &str) -> (r: Option<SchemaField>)
        ensures
            match spec_find_field(self.fields_view(), name@) {
                Option::Some(fv) => r matches Option::Some(sf) && sf.identifier@ == fv.wire()
                    && origin_segs(sf.origin) == self.origin_view(),
                Option::None => r is None,
            },
    {
        let ghost fields = self.fields_view();
        let mut i: usize = 0;
        proof {
            assert(fields.skip(0) =~= fields);
        }
        while i < self.fields.len()
            invariant
                i <= self.fields@.len(),
                fields == self.fields_view(),
                spec_find_field(fields, name@) == spec_find_field(
                    fields.skip(i as int),
                    name@,
                ),
            decreases self.fields.len() - i,
        {
            let accessor = self.fields[i].accessor_name();
            proof {
                assert(fields.skip(i as int)[0] == fields[i as int]);
                assert(fields.skip(i as int).skip(1) =~= fields.skip(i as int + 1));
            }
            if str_eq(accessor.as_str(), name) {
                let wire = self.fields[i].wire_identifier();
                let origin = match &self.origin {
                    Some(o) => Some(o.dup()),
                    None => None,
                };
                return Some(SchemaField::with_origin(wire.as_str(), origin));
            }
            i = i + 1;
        }
        proof {
            assert(fields.skip(fields.len() as int) =~= Seq::<FieldView>::empty());
        }
        None
    }

    /// Traverses the foreign-node or relation field accessed under `name`
    /// into `target`'s schema, extending the origin path with the field's
    /// wire identifier. Returns `None` when no such field exists, when the
    /// field is a plain property, or when `target` is not the model the
    /// field points at.
    pub fn traverse(&self, name: &str, target: &Model) -> (r: Option<ModelSchema>)
        ensures
            match spec_find_field(self.fields_view(), name@) {
                Option::Some(fv) => if fv.traversable() && fv.target() == target.name.0@ {
                    r matches Option::Some(ms) && ms.label@ == target.name.0@
                        && ms.fields_view() == target.fields_view() && ms.origin_view()
                        == self.origin_view().push(fv.wire())
                } else {
                    r is None
                },
                Option::None => r is None,
            },
    {
        let ghost fields = self.fields_view();
        let mut i: usize = 0;
        proof {
            assert(fields.skip(0) =~= fields);
        }
        while i < self.fields.len()
            invariant
                i <= self.fields@.len(),
                fields == self.fields_view(),
                spec_find_field(fields, name@) == spec_find_field(
                    fields.skip(i as int),
                    name@,
                ),
            decreases self.fields.len() - i,
        {
            let accessor = self.fields[i].accessor_name();
            proof {
                assert(fields.skip(i as int)[0] == fields[i as int]);
                assert(fields.skip(i as int).skip(1) =~= fields.skip(i as int + 1));
            }
            if str_eq(accessor.as_str(), name) {
                let field = &self.fields[i];
                let target_matches = match field {
                    Field::Property(_) => false,
                    Field::ForeignNode(f) => str_eq(
                        f.foreign_type.0.as_str(),
                        target.name.0.as_str(),
                    ),
                    Field::Relation(rel) => str_eq(
                        rel.foreign_type.0.as_str(),
                        target.name.0.as_str(),
                    ),
                };
                if !target_matches {
                    return None;
                }
                let wire = field.wire_identifier();
                let origin = match &self.origin {
                    Some(o) => o.extended(wire.as_str()),
                    None => OriginHolder::new(Vec::new()).extended(wire.as_str()),
                };
                proof {
                    assert(origin.seg_views() =~= self.origin_view().push(
                        fields[i as int].wire(),
                    ));
                }
                return Some(target.schema_at(Some(origin)));
            }
            i = i + 1;
        }
        proof {
            assert(fields.skip(fields.len() as int) =~= Seq::<FieldView>::empty());
        }
        None
    }
}

impl Model {
    /// The root accessor of this model, with an empty origin path.
    pub fn schema(&self) -> (r: ModelSchema)
        ensures
            r.label@ == self.name.0@,
            r.fields_view() == self.fields_view(),
            r.origin is None,
    {
        self.schema_at(None)
    }

    /// An accessor of this model reached through the given origin.
    pub fn schema_at(&self, origin: Option<OriginHolder>) -> (r: ModelSchema)
        ensures
            r.label@ == self.name.0@,
            r.fields_view() == self.fields_view(),
            r.origin_view() == origin_segs(origin),
            origin is None ==> r.origin is None,
    {
        let mut fields: Vec<Field> = Vec::new();
        let mut i: usize = 0;
        while i < self.fields.len()
            invariant
                i <= self.fields@.len(),
                fields@.len() == i,
                forall|k: int| 0 <= k < i ==> fields@[k].view() == self.fields@[k].view(),
            decreases self.fields.len() - i,
        {
            fields.push(self.fields[i].dup());
            i = i + 1;
        }
        let r = ModelSchema { label: self.name.0.clone(), fields, origin };
        proof {
            assert(r.fields_view() =~= self.fields_view());
        }
        r
    }
}

} // verus!
