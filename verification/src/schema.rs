//! The decoded schema: pallets, their calls, and the type registry.

use vstd::prelude::*;

verus! {

/// The views of the items of a sequence, item by item.
pub open spec fn views<T: View>(items: Seq<T>) -> Seq<T::V> {
    Seq::new(items.len(), |i: int| items[i]@)
}

/// What a type id stands for. Only the last segment of the type's path is
/// kept: a type of an unnamed shape (a tuple, an array, a primitive) has none.
#[derive(Clone, Debug, PartialEq, Eq)]
pub struct TypeDescriptor {
    pub ident: Option<String>,
}

/// A type descriptor, as specifications see it.
pub struct TypeDescriptorView {
    pub ident: Option<Seq<char>>,
}

impl View for TypeDescriptor {
    type V = TypeDescriptorView;

    open spec fn view(&self) -> TypeDescriptorView {
        TypeDescriptorView { ident: self.ident.deep_view() }
    }
}

/// The table of types. A type id is a position in the table.
#[derive(Clone, Debug, PartialEq, Eq)]
pub struct TypeRegistry {
    pub types: Vec<TypeDescriptor>,
}

impl View for TypeRegistry {
    type V = Seq<TypeDescriptorView>;

    open spec fn view(&self) -> Seq<TypeDescriptorView> {
        views(self.types@)
    }
}

/// The descriptor that `type_id` resolves to in a table of types.
pub open spec fn resolved(types: Seq<TypeDescriptorView>, type_id: u32) -> Option<
    TypeDescriptorView,
> {
    if type_id < types.len() {
        Some(types[type_id as int])
    } else {
        None
    }
}

impl TypeRegistry {
    /// The descriptor of a type id, or `None` where the table has no such id.
    pub fn resolve(&self, type_id: u32) -> (found: Option<&TypeDescriptor>)
        ensures
            found.is_some() == resolved(self@, type_id).is_some(),
            found matches Some(d) ==> resolved(self@, type_id) == Some(d@),
    {
        let position = type_id as usize;
        if position < self.types.len() {
            Some(&self.types[position])
        } else {
            None
        }
    }
}

/// One argument of a call: its name, if the schema declares one, and its type.
#[derive(Clone, Debug, PartialEq, Eq)]
pub struct Field {
    pub name: Option<String>,
    pub type_ref: u32,
}

/// A field, as specifications see it.
pub struct FieldView {
    pub name: Option<Seq<char>>,
    pub type_ref: u32,
}

impl View for Field {
    type V = FieldView;

    open spec fn view(&self) -> FieldView {
        FieldView { name: self.name.deep_view(), type_ref: self.type_ref }
    }
}

/// One call of a pallet. `index` is its discriminant within the pallet; the
/// fields stand in the order in which they are declared.
#[derive(Clone, Debug, PartialEq, Eq)]
pub struct CallVariant {
    pub name: String,
    pub index: u8,
    pub fields: Vec<Field>,
}

/// A call, as specifications see it.
#[verifier::ext_equal]
pub struct CallVariantView {
    pub name: Seq<char>,
    pub index: u8,
    pub fields: Seq<FieldView>,
}

impl View for CallVariant {
    type V = CallVariantView;

    open spec fn view(&self) -> CallVariantView {
        CallVariantView { name: self.name@, index: self.index, fields: views(self.fields@) }
    }
}

/// One pallet. `index` is its discriminant among the pallets; the operations
/// stand in the order of the schema.
#[derive(Clone, Debug, PartialEq, Eq)]
pub struct Pallet {
    pub name: String,
    pub index: u8,
    pub operations: Vec<CallVariant>,
}

/// A pallet, as specifications see it.
#[verifier::ext_equal]
pub struct PalletView {
    pub name: Seq<char>,
    pub index: u8,
    pub operations: Seq<CallVariantView>,
}

impl View for Pallet {
    type V = PalletView;

    open spec fn view(&self) -> PalletView {
        PalletView {
            name: self.name@,
            index: self.index,
            operations: views(self.operations@),
        }
    }
}

/// A decoded schema: the pallets in the order of the schema, and the types
/// that their calls refer to.
#[derive(Clone, Debug, PartialEq, Eq)]
pub struct Schema {
    pub pallets: Vec<Pallet>,
    pub registry: TypeRegistry,
}

/// A schema, as specifications see it.
#[verifier::ext_equal]
pub struct SchemaView {
    pub pallets: Seq<PalletView>,
    pub types: Seq<TypeDescriptorView>,
}

impl View for Schema {
    type V = SchemaView;

    open spec fn view(&self) -> SchemaView {
        SchemaView { pallets: views(self.pallets@), types: self.registry@ }
    }
}

} // verus!
