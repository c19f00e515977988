//! Resolving a schema: the pallets are put in order, and every field gets
//! the name of its type.

use crate::error::{SchemaIntegrityError, SchemaIntegrityErrorView};
use crate::order::{
    as_ints, index_order, lemma_index_order, ordered_by_index, pallet_indices, pallet_order,
};
use crate::search::{first_such, is_first_such, lemma_first_such};
use crate::schema::{
    resolved, views, CallVariant, CallVariantView, FieldView, Pallet, PalletView, Schema,
    SchemaView, TypeDescriptorView, TypeRegistry,
};
use vstd::prelude::*;

verus! {

/// A field with the name of its type.
#[derive(Clone, Debug, PartialEq, Eq)]
pub struct ResolvedField {
    pub name: String,
    pub resolved_type: String,
}

/// A resolved field, as specifications see it.
pub struct ResolvedFieldView {
    pub name: Seq<char>,
    pub resolved_type: Seq<char>,
}

impl View for ResolvedField {
    type V = ResolvedFieldView;

    open spec fn view(&self) -> ResolvedFieldView {
        ResolvedFieldView { name: self.name@, resolved_type: self.resolved_type@ }
    }
}

/// A call whose fields are resolved.
#[derive(Clone, Debug, PartialEq, Eq)]
pub struct ResolvedCall {
    pub name: String,
    pub index: u8,
    pub fields: Vec<ResolvedField>,
}

/// A resolved call, as specifications see it.
#[verifier::ext_equal]
pub struct ResolvedCallView {
    pub name: Seq<char>,
    pub index: u8,
    pub fields: Seq<ResolvedFieldView>,
}

impl View for ResolvedCall {
    type V = ResolvedCallView;

    open spec fn view(&self) -> ResolvedCallView {
        ResolvedCallView { name: self.name@, index: self.index, fields: views(self.fields@) }
    }
}

/// A pallet whose calls are resolved.
#[derive(Clone, Debug, PartialEq, Eq)]
pub struct ResolvedPallet {
    pub name: String,
    pub index: u8,
    pub operations: Vec<ResolvedCall>,
}

/// A resolved pallet, as specifications see it.
#[verifier::ext_equal]
pub struct ResolvedPalletView {
    pub name: Seq<char>,
    pub index: u8,
    pub operations: Seq<ResolvedCallView>,
}

impl View for ResolvedPallet {
    type V = ResolvedPalletView;

    open spec fn view(&self) -> ResolvedPalletView {
        ResolvedPalletView {
            name: self.name@,
            index: self.index,
            operations: views(self.operations@),
        }
    }
}

/// A resolved schema: the pallets by ascending index, the operations of each
/// in the order of the schema, the fields of each in the order of their
/// declaration.
#[derive(Clone, Debug, PartialEq, Eq)]
pub struct NormalizedSchema {
    pub pallets: Vec<ResolvedPallet>,
}

/// A resolved schema, as specifications see it.
#[verifier::ext_equal]
pub struct NormalizedSchemaView {
    pub pallets: Seq<ResolvedPalletView>,
}

impl View for NormalizedSchema {
    type V = NormalizedSchemaView;

    open spec fn view(&self) -> NormalizedSchemaView {
        NormalizedSchemaView { pallets: views(self.pallets@) }
    }
}

/// The type name that stands for a type of an unnamed shape.
pub open spec fn fallback_type_name() -> Seq<char> {
    "u8"@
}

/// The type name that a descriptor is emitted under: its identifier where it
/// has one, the fallback where it has none.
pub open spec fn emitted_type_name(descriptor: TypeDescriptorView) -> Seq<char> {
    match descriptor.ident {
        Some(ident) => ident,
        None => fallback_type_name(),
    }
}

/// The field declares no name, or its type id is not in the table.
pub open spec fn field_faulty(types: Seq<TypeDescriptorView>, field: FieldView) -> bool {
    field.name is None || resolved(types, field.type_ref) is None
}

/// One of the call's fields is faulty.
pub open spec fn call_faulty(types: Seq<TypeDescriptorView>, call: CallVariantView) -> bool {
    exists|i: int| 0 <= i < call.fields.len() && field_faulty(types, #[trigger] call.fields[i])
}

/// One of the pallet's calls is faulty.
pub open spec fn pallet_faulty(types: Seq<TypeDescriptorView>, pallet: PalletView) -> bool {
    exists|i: int|
        0 <= i < pallet.operations.len() && call_faulty(types, #[trigger] pallet.operations[i])
}

/// Every field of the schema has a name and a type that the table holds.
pub open spec fn sound(schema: SchemaView) -> bool {
    forall|k: int|
        0 <= k < schema.pallets.len() ==> !pallet_faulty(schema.types, #[trigger] schema.pallets[k])
}

/// A field that is not faulty, with the name of its type.
pub open spec fn resolved_field(
    types: Seq<TypeDescriptorView>,
    field: FieldView,
) -> ResolvedFieldView {
    ResolvedFieldView {
        name: field.name.unwrap(),
        resolved_type: emitted_type_name(resolved(types, field.type_ref).unwrap()),
    }
}

/// A call with each of its fields resolved, in their order.
pub open spec fn resolved_call(
    types: Seq<TypeDescriptorView>,
    call: CallVariantView,
) -> ResolvedCallView {
    ResolvedCallView {
        name: call.name,
        index: call.index,
        fields: Seq::new(call.fields.len(), |i: int| resolved_field(types, call.fields[i])),
    }
}

/// A pallet with each of its calls resolved, in their order.
pub open spec fn resolved_pallet(
    types: Seq<TypeDescriptorView>,
    pallet: PalletView,
) -> ResolvedPalletView {
    ResolvedPalletView {
        name: pallet.name,
        index: pallet.index,
        operations: Seq::new(
            pallet.operations.len(),
            |i: int| resolved_call(types, pallet.operations[i]),
        ),
    }
}

/// The resolved form of a sound schema.
pub open spec fn normalized(schema: SchemaView) -> NormalizedSchemaView {
    let pallets = ordered_by_index(schema.pallets);
    NormalizedSchemaView {
        pallets: Seq::new(pallets.len(), |k: int| resolved_pallet(schema.types, pallets[k])),
    }
}

/// What is reported of the first faulty field of a call.
pub open spec fn fault_in_call(
    types: Seq<TypeDescriptorView>,
    pallet_name: Seq<char>,
    call: CallVariantView,
) -> SchemaIntegrityErrorView {
    let position = first_such(call.fields, |f: FieldView| field_faulty(types, f));
    let field = call.fields[position];
    match field.name {
        None => SchemaIntegrityErrorView::MissingFieldName {
            pallet: pallet_name,
            operation: call.name,
            position: position as nat,
        },
        Some(name) => SchemaIntegrityErrorView::UnknownType {
            pallet: pallet_name,
            operation: call.name,
            field: name,
            type_ref: field.type_ref,
        },
    }
}

/// What is reported of the first faulty call of a pallet.
pub open spec fn fault_in_pallet(
    types: Seq<TypeDescriptorView>,
    pallet: PalletView,
) -> SchemaIntegrityErrorView {
    let call = pallet.operations[first_such(
        pallet.operations,
        |c: CallVariantView| call_faulty(types, c),
    )];
    fault_in_call(types, pallet.name, call)
}

/// What is reported of a schema that is not sound: the first faulty field of
/// the first faulty call of the first faulty pallet, the pallets taken by
/// ascending index.
pub open spec fn integrity_fault(schema: SchemaView) -> SchemaIntegrityErrorView {
    let pallets = ordered_by_index(schema.pallets);
    let pallet = pallets[first_such(pallets, |p: PalletView| pallet_faulty(schema.types, p))];
    fault_in_pallet(schema.types, pallet)
}

/// The name under which a type is emitted: the identifier of its descriptor,
/// or `u8` where the descriptor has none. `None` where the table does not
/// hold the type id.
pub fn resolve_type_name(registry: &TypeRegistry, type_ref: u32) -> (name: Option<String>)
    ensures
        match name {
            Some(n) => resolved(registry@, type_ref) is Some && n@ == emitted_type_name(
                resolved(registry@, type_ref).unwrap(),
            ),
            None => resolved(registry@, type_ref) is None,
        },
{
    match registry.resolve(type_ref) {
        None => None,
        Some(descriptor) => {
            match &descriptor.ident {
                Some(ident) => Some(ident.clone()),
                None => Some(String::from_str("u8")),
            }
        },
    }
}

/// Resolves the fields of one call of the pallet `pallet_name`.
pub fn resolve_call(
    registry: &TypeRegistry,
    pallet_name: &String,
    call: &CallVariant,
) -> (r: Result<ResolvedCall, SchemaIntegrityError>)
    ensures
        match r {
            Ok(c) => !call_faulty(registry@, call@) && c@ == resolved_call(registry@, call@),
            Err(e) => call_faulty(registry@, call@) && e@ == fault_in_call(
                registry@,
                pallet_name@,
                call@,
            ),
        },
{
    let ghost types = registry@;
    let ghost bad = |f: FieldView| field_faulty(types, f);
    let mut fields: Vec<ResolvedField> = Vec::new();
    let mut i: usize = 0;
    while i < call.fields.len()
        invariant
            i <= call.fields.len(),
            types == registry@,
            bad == |f: FieldView| field_faulty(types, f),
            fields@.len() == i,
            forall|j: int| 0 <= j < i ==> !field_faulty(types, #[trigger] call@.fields[j]),
            forall|j: int|
                0 <= j < i ==> (#[trigger] fields@[j])@ == resolved_field(types, call@.fields[j]),
        decreases call.fields.len() - i,
    {
        let field = &call.fields[i];
        assert(call@.fields[i as int] == field@);
        let name = match &field.name {
            Some(name) => name.clone(),
            None => {
                proof {
                    assert(bad(call@.fields[i as int]));
                    assert(is_first_such(call@.fields, bad, i as int));
                    lemma_first_such(call@.fields, bad, i as int);
                }
                return Err(
                    SchemaIntegrityError::MissingFieldName {
                        pallet: pallet_name.clone(),
                        operation: call.name.clone(),
                        position: i,
                    },
                );
            },
        };
        let resolved_type = match resolve_type_name(registry, field.type_ref) {
            Some(resolved_type) => resolved_type,
            None => {
                proof {
                    assert(bad(call@.fields[i as int]));
                    assert(is_first_such(call@.fields, bad, i as int));
                    lemma_first_such(call@.fields, bad, i as int);
                }
                return Err(
                    SchemaIntegrityError::UnknownType {
                        pallet: pallet_name.clone(),
                        operation: call.name.clone(),
                        field: name,
                        type_ref: field.type_ref,
                    },
                );
            },
        };
        fields.push(ResolvedField { name, resolved_type });
        i += 1;
    }
    let resolved = ResolvedCall { name: call.name.clone(), index: call.index, fields };
    assert(resolved@ =~~= resolved_call(types, call@));
    Ok(resolved)
}

/// Resolves the calls of one pallet, in their order.
pub fn resolve_pallet(registry: &TypeRegistry, pallet: &Pallet) -> (r: Result<
    ResolvedPallet,
    SchemaIntegrityError,
>)
    ensures
        match r {
            Ok(p) => !pallet_faulty(registry@, pallet@) && p@ == resolved_pallet(
                registry@,
                pallet@,
            ),
            Err(e) => pallet_faulty(registry@, pallet@) && e@ == fault_in_pallet(
                registry@,
                pallet@,
            ),
        },
{
    let ghost types = registry@;
    let ghost bad = |c: CallVariantView| call_faulty(types, c);
    let mut operations: Vec<ResolvedCall> = Vec::new();
    let mut i: usize = 0;
    while i < pallet.operations.len()
        invariant
            i <= pallet.operations.len(),
            types == registry@,
            bad == |c: CallVariantView| call_faulty(types, c),
            operations@.len() == i,
            forall|j: int| 0 <= j < i ==> !call_faulty(types, #[trigger] pallet@.operations[j]),
            forall|j: int|
                0 <= j < i ==> (#[trigger] operations@[j])@ == resolved_call(
                    types,
                    pallet@.operations[j],
                ),
        decreases pallet.operations.len() - i,
    {
        let call = &pallet.operations[i];
        assert(pallet@.operations[i as int] == call@);
        match resolve_call(registry, &pallet.name, call) {
            Ok(resolved) => {
                operations.push(resolved);
            },
            Err(e) => {
                proof {
                    assert(bad(pallet@.operations[i as int]));
                    assert(is_first_such(pallet@.operations, bad, i as int));
                    lemma_first_such(pallet@.operations, bad, i as int);
                }
                return Err(e);
            },
        }
        i += 1;
    }
    let resolved = ResolvedPallet { name: pallet.name.clone(), index: pallet.index, operations };
    assert(resolved@ =~~= resolved_pallet(types, pallet@));
    Ok(resolved)
}

/// Resolves a schema. The pallets come out by ascending index; pallets of
/// one index, and the operations and fields everywhere, keep the order of
/// the schema. A field without a name, or with a type id that the registry
/// does not hold, fails the whole schema.
pub fn resolve_schema(schema: &Schema) -> (r: Result<NormalizedSchema, SchemaIntegrityError>)
    ensures
        match r {
            Ok(n) => sound(schema@) && n@ == normalized(schema@),
            Err(e) => !sound(schema@) && e@ == integrity_fault(schema@),
        },
{
    let ghost types = schema@.types;
    let ghost bad = |p: PalletView| pallet_faulty(types, p);
    let ghost ordered = ordered_by_index(schema@.pallets);
    let order = pallet_order(&schema.pallets);
    let mut pallets: Vec<ResolvedPallet> = Vec::new();
    let mut k: usize = 0;
    while k < order.len()
        invariant
            k <= order.len(),
            types == schema@.types,
            types == schema.registry@,
            bad == |p: PalletView| pallet_faulty(types, p),
            ordered == ordered_by_index(schema@.pallets),
            as_ints(order@) == index_order(pallet_indices(schema@.pallets)),
            order@.len() == schema.pallets@.len(),
            forall|j: int| 0 <= j < order@.len() ==> #[trigger] order@[j] < schema.pallets@.len(),
            pallets@.len() == k,
            forall|j: int| 0 <= j < k ==> !pallet_faulty(types, #[trigger] ordered[j]),
            forall|j: int|
                0 <= j < k ==> (#[trigger] pallets@[j])@ == resolved_pallet(types, ordered[j]),
        decreases order.len() - k,
    {
        let pallet = &schema.pallets[order[k]];
        proof {
            assert(as_ints(order@)[k as int] == order@[k as int]);
            assert(ordered[k as int] == schema@.pallets[order@[k as int] as int]);
            assert(ordered[k as int] == pallet@);
        }
        match resolve_pallet(&schema.registry, pallet) {
            Ok(resolved) => {
                pallets.push(resolved);
            },
            Err(e) => {
                proof {
                    assert(bad(ordered[k as int]));
                    assert(is_first_such(ordered, bad, k as int));
                    lemma_first_such(ordered, bad, k as int);
                    assert(pallet_faulty(types, schema@.pallets[order@[k as int] as int]));
                }
                return Err(e);
            },
        }
        k += 1;
    }
    let normalized_schema = NormalizedSchema { pallets };
    proof {
        assert(normalized_schema@ =~~= normalized(schema@));
        lemma_index_order(pallet_indices(schema@.pallets));
        assert forall|p: int| 0 <= p < schema@.pallets.len() implies !pallet_faulty(
            types,
            #[trigger] schema@.pallets[p],
        ) by {
            let keys = pallet_indices(schema@.pallets);
            assert(index_order(keys).contains(p));
            let j = choose|j: int| 0 <= j < index_order(keys).len() && index_order(keys)[j] == p;
            assert(ordered[j] == schema@.pallets[p]);
        }
    }
    Ok(normalized_schema)
}

} // verus!
