//! The generated call model: a tree of tagged unions.

use crate::schema::views;
use vstd::prelude::*;

verus! {

/// A named field of a variant, with the name of its type.
#[derive(Clone, Debug, PartialEq, Eq)]
pub struct FieldDef {
    pub name: String,
    pub resolved_type: String,
}

/// A field of a variant, as specifications see it.
pub struct FieldDefView {
    pub name: Seq<char>,
    pub resolved_type: Seq<char>,
}

impl View for FieldDef {
    type V = FieldDefView;

    open spec fn view(&self) -> FieldDefView {
        FieldDefView { name: self.name@, resolved_type: self.resolved_type@ }
    }
}

/// What a variant carries.
#[derive(Clone, Debug, PartialEq, Eq)]
pub enum Payload {
    /// Nothing.
    Empty,
    /// One value of the named type.
    Opaque(String),
    /// Named fields, in their order.
    Fields(Vec<FieldDef>),
}

/// A payload, as specifications see it.
#[verifier::ext_equal]
pub enum PayloadView {
    Empty,
    Opaque(Seq<char>),
    Fields(Seq<FieldDefView>),
}

impl View for Payload {
    type V = PayloadView;

    open spec fn view(&self) -> PayloadView {
        match self {
            Payload::Empty => PayloadView::Empty,
            Payload::Opaque(name) => PayloadView::Opaque(name@),
            Payload::Fields(fields) => PayloadView::Fields(views(fields@)),
        }
    }
}

/// One variant of a union. The discriminant is the tag under which the
/// variant is encoded; it is given, not derived from the variant's position.
#[derive(Clone, Debug, PartialEq, Eq)]
pub struct VariantDef {
    pub name: String,
    pub discriminant: u8,
    pub payload: Payload,
}

/// A variant, as specifications see it.
#[verifier::ext_equal]
pub struct VariantDefView {
    pub name: Seq<char>,
    pub discriminant: u8,
    pub payload: PayloadView,
}

impl View for VariantDef {
    type V = VariantDefView;

    open spec fn view(&self) -> VariantDefView {
        VariantDefView {
            name: self.name@,
            discriminant: self.discriminant,
            payload: self.payload@,
        }
    }
}

/// A tagged union: a name and its variants, in their order.
#[derive(Clone, Debug, PartialEq, Eq)]
pub struct EnumDef {
    pub name: String,
    pub variants: Vec<VariantDef>,
}

/// A union, as specifications see it.
#[verifier::ext_equal]
pub struct EnumDefView {
    pub name: Seq<char>,
    pub variants: Seq<VariantDefView>,
}

impl View for EnumDef {
    type V = EnumDefView;

    open spec fn view(&self) -> EnumDefView {
        EnumDefView { name: self.name@, variants: views(self.variants@) }
    }
}

/// The call model of a runtime: the union of the pallets, and for each
/// pallet, in the same order, the union of its calls. `module_name` is the
/// namespace that the unions are emitted into.
#[derive(Clone, Debug, PartialEq, Eq)]
pub struct TypeDefinitionTree {
    pub module_name: String,
    pub runtime_call: EnumDef,
    pub pallet_calls: Vec<EnumDef>,
}

/// A tree, as specifications see it.
#[verifier::ext_equal]
pub struct TypeDefinitionTreeView {
    pub module_name: Seq<char>,
    pub runtime_call: EnumDefView,
    pub pallet_calls: Seq<EnumDefView>,
}

impl View for TypeDefinitionTree {
    type V = TypeDefinitionTreeView;

    open spec fn view(&self) -> TypeDefinitionTreeView {
        TypeDefinitionTreeView {
            module_name: self.module_name@,
            runtime_call: self.runtime_call@,
            pallet_calls: views(self.pallet_calls@),
        }
    }
}

/// The discriminants of a union's variants, in their order.
pub open spec fn discriminants(union: EnumDefView) -> Seq<u8> {
    Seq::new(union.variants.len(), |i: int| union.variants[i].discriminant)
}

/// The unions of a tree: the union of the pallets first, then the unions of
/// the calls.
pub open spec fn unions(tree: TypeDefinitionTreeView) -> Seq<EnumDefView> {
    seq![tree.runtime_call] + tree.pallet_calls
}

/// The names of the unions of a tree, in the order of `unions`.
pub open spec fn union_names(tree: TypeDefinitionTreeView) -> Seq<Seq<char>> {
    Seq::new(unions(tree).len(), |k: int| unions(tree)[k].name)
}

} // verus!
