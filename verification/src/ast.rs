//! The abstract syntax of a model declaration: a named model with fields of
//! three kinds (plain property, foreign node, named relation), an optional
//! alias and options.

use vstd::prelude::*;

verus! {

/// A name appearing in a declaration (model, field, alias or foreign type).
pub struct Identifier(pub String);

/// The mathematical content of a parsed field.
pub enum FieldView {
    Property { name: Seq<char>, is_public: bool },
    ForeignNode { name: Seq<char>, foreign_type: Seq<char>, is_public: bool },
    Relation {
        name: Seq<char>,
        foreign_type: Seq<char>,
        alias: Seq<char>,
        outgoing: bool,
        is_public: bool,
    },
}

impl FieldView {
    /// The identifier the field is accessed under within its model.
    pub open spec fn accessor(&self) -> Seq<char> {
        match *self {
            FieldView::Property { name, .. } => name,
            FieldView::ForeignNode { name, .. } => name,
            FieldView::Relation { alias, .. } => alias,
        }
    }

    /// The identifier the field renders to on the wire: the plain name, or
    /// the full edge expression for a relation.
    pub open spec fn wire(&self) -> Seq<char> {
        match *self {
            FieldView::Property { name, .. } => name,
            FieldView::ForeignNode { name, .. } => name,
            FieldView::Relation { name, foreign_type, outgoing, .. } => if outgoing {
                "->"@ + name + "->"@ + foreign_type
            } else {
                "<-"@ + name + "<-"@ + foreign_type
            },
        }
    }

    /// Whether the field can be traversed into another model's schema.
    pub open spec fn traversable(&self) -> bool {
        match *self {
            FieldView::Property { .. } => false,
            FieldView::ForeignNode { .. } => true,
            FieldView::Relation { .. } => true,
        }
    }

    /// The name of the model the field points at (empty for a property).
    pub open spec fn target(&self) -> Seq<char> {
        match *self {
            FieldView::Property { .. } => Seq::empty(),
            FieldView::ForeignNode { foreign_type, .. } => foreign_type,
            FieldView::Relation { foreign_type, .. } => foreign_type,
        }
    }

    /// Whether the field was declared `pub` (included in set-style
    /// serialization).
    pub open spec fn public(&self) -> bool {
        match *self {
            FieldView::Property { is_public, .. } => is_public,
            FieldView::ForeignNode { is_public, .. } => is_public,
            FieldView::Relation { is_public, .. } => is_public,
        }
    }
}

/// A plain scalar or struct field.
pub struct FieldProperty {
    pub name: Identifier,
    pub is_public: bool,
}

/// A field whose value is an identifier into another model.
pub struct FieldForeignNode {
    pub name: Identifier,
    pub foreign_type: Identifier,
    pub is_public: bool,
}

/// The direction of a relation edge.
pub enum FieldRelationType {
    /// For `->` relations.
    OutgoingEdge,
    /// For `<-` relations.
    IncomingEdge,
}

/// A named edge traversal, exposed under its alias.
pub struct FieldRelation {
    pub name: Identifier,
    pub foreign_type: Identifier,
    pub alias: Identifier,
    pub relation_type: FieldRelationType,
    pub is_public: bool,
}

/// A declared field of one of the three kinds.
pub enum Field {
    Property(FieldProperty),
    ForeignNode(FieldForeignNode),
    Relation(FieldRelation),
}

impl Field {
    /// The field's mathematical content.
    pub open spec fn view(&self) -> FieldView {
        match self {
            Field::Property(p) => FieldView::Property { name: p.name.0@, is_public: p.is_public },
            Field::ForeignNode(f) => FieldView::ForeignNode {
                name: f.name.0@,
                foreign_type: f.foreign_type.0@,
                is_public: f.is_public,
            },
            Field::Relation(r) => FieldView::Relation {
                name: r.name.0@,
                foreign_type: r.foreign_type.0@,
                alias: r.alias.0@,
                outgoing: r.relation_type is OutgoingEdge,
                is_public: r.is_public,
            },
        }
    }

    /// The identifier the field is accessed under.
    pub fn accessor_name(&self) -> (r: String)
        ensures
            r@ == self.view().accessor(),
    {
        match self {
            Field::Property(p) => p.name.0.clone(),
            Field::ForeignNode(f) => f.name.0.clone(),
            Field::Relation(rel) => rel.alias.0.clone(),
        }
    }

    /// The identifier the field renders to on the wire.
    pub fn wire_identifier(&self) -> (r: String)
        ensures
            r@ == self.view().wire(),
    {
        match self {
            Field::Property(p) => p.name.0.clone(),
            Field::ForeignNode(f) => f.name.0.clone(),
            Field::Relation(rel) => {
                let edge = match rel.relation_type {
                    FieldRelationType::OutgoingEdge => "->",
                    FieldRelationType::IncomingEdge => "<-",
                };
                let out = String::from_str(edge).concat(rel.name.0.as_str()).concat(
                    edge,
                ).concat(rel.foreign_type.0.as_str());
                proof {
                    assert(out@ =~= self.view().wire());
                }
                out
            },
        }
    }

    /// Whether the field can be traversed.
    pub fn is_traversable(&self) -> (r: bool)
        ensures
            r == self.view().traversable(),
    {
        match self {
            Field::Property(_) => false,
            Field::ForeignNode(_) => true,
            Field::Relation(_) => true,
        }
    }

    /// Whether the field was declared `pub`.
    pub fn is_public(&self) -> (r: bool)
        ensures
            r == self.view().public(),
    {
        match self {
            Field::Property(p) => p.is_public,
            Field::ForeignNode(f) => f.is_public,
            Field::Relation(rel) => rel.is_public,
        }
    }

    /// A copy of the field (same mathematical content).
    pub fn dup(&self) -> (r: Field)
        ensures
            r.view() == self.view(),
    {
        match self {
            Field::Property(p) => Field::Property(
                FieldProperty { name: Identifier(p.name.0.clone()), is_public: p.is_public },
            ),
            Field::ForeignNode(f) => Field::ForeignNode(
                FieldForeignNode {
                    name: Identifier(f.name.0.clone()),
                    foreign_type: Identifier(f.foreign_type.0.clone()),
                    is_public: f.is_public,
                },
            ),
            Field::Relation(rel) => Field::Relation(
                FieldRelation {
                    name: Identifier(rel.name.0.clone()),
                    foreign_type: Identifier(rel.foreign_type.0.clone()),
                    alias: Identifier(rel.alias.0.clone()),
                    relation_type: match rel.relation_type {
                        FieldRelationType::OutgoingEdge => FieldRelationType::OutgoingEdge,
                        FieldRelationType::IncomingEdge => FieldRelationType::IncomingEdge,
                    },
                    is_public: rel.is_public,
                },
            ),
        }
    }
}

/// Options attached to a declaration (`with(partial)`).
pub struct ModelOptions {
    pub partial: bool,
}

/// The mathematical content of a parsed model declaration.
pub struct ModelView {
    pub name: Seq<char>,
    pub alias: Option<Seq<char>>,
    pub partial: bool,
    pub fields: Seq<FieldView>,
}

/// A parsed model declaration: created once per declaration, immutable
/// thereafter.
pub struct Model {
    pub name: Identifier,
    pub fields: Vec<Field>,
    pub alias: Option<Identifier>,
    pub options: ModelOptions,
}

impl Model {
    /// The fields' mathematical content, in declaration order.
    pub open spec fn fields_view(&self) -> Seq<FieldView> {
        self.fields@.map(|_i: int, f: Field| f.view())
    }

    /// The model's mathematical content.
    pub open spec fn view(&self) -> ModelView {
        ModelView {
            name: self.name.0@,
            alias: match self.alias {
                Option::Some(a) => Option::Some(a.0@),
                Option::None => Option::None,
            },
            partial: self.options.partial,
            fields: self.fields_view(),
        }
    }
}

} // verus!
