//! What holds of every generation pass.

use crate::builder::{
    call_union_name, clash_free, clashing, runtime_call_name, tree_of, union_of_calls,
    variant_of_pallet, well_formed,
};
use crate::error::GenerateErrorView;
use crate::generate::{generated, generated_from};
use crate::order::{
    index_order, is_index_order, lemma_index_order, lemma_order_ignores_listing,
    ordered_by_index, pallet_indices, precedes,
};
use crate::resolve::{
    call_faulty, field_faulty, normalized, pallet_faulty, resolved_pallet, sound,
};
use crate::schema::{resolved, PalletView, SchemaView};
use crate::search::distinct;
use crate::tree::{
    discriminants, union_names, unions, EnumDefView, PayloadView, TypeDefinitionTreeView,
};
use vstd::prelude::*;

verus! {

/// The indices of a pallet's operations, in the order of the schema.
pub open spec fn call_indices(pallet: PalletView) -> Seq<u8> {
    Seq::new(pallet.operations.len(), |c: int| pallet.operations[c].index)
}

/// Two pallets of the schema have one index, or two operations of one
/// pallet have.
pub open spec fn has_duplicate_discriminant(schema: SchemaView) -> bool {
    !distinct(pallet_indices(schema.pallets)) || exists|p: int|
        0 <= p < schema.pallets.len() && !distinct(call_indices(#[trigger] schema.pallets[p]))
}

/// The union has the name that belongs to the pallet, and its variants are
/// the pallet's operations: as many, in the same order, each under the name
/// and with the index of its operation.
pub open spec fn follows(union: EnumDefView, pallet: PalletView) -> bool {
    &&& union.name == call_union_name(pallet.name)
    &&& union.variants.len() == pallet.operations.len()
    &&& forall|c: int|
        0 <= c < pallet.operations.len() ==> (#[trigger] union.variants[c]).name
            == pallet.operations[c].name && union.variants[c].discriminant
            == pallet.operations[c].index
}

/// One of the tree's unions of calls follows the pallet.
pub open spec fn has_union_of(tree: TypeDefinitionTreeView, pallet: PalletView) -> bool {
    exists|k: int|
        0 <= k < tree.pallet_calls.len() && follows(#[trigger] tree.pallet_calls[k], pallet)
}

/// A pass is a function of its input: whatever two passes give for the same
/// bytes and the same module name is the same, tree or error.
pub proof fn lemma_generate_is_deterministic(
    bytes: Seq<u8>,
    module_name: Seq<char>,
    first: Result<TypeDefinitionTreeView, GenerateErrorView>,
    second: Result<TypeDefinitionTreeView, GenerateErrorView>,
)
    requires
        first == generated(bytes, module_name),
        second == generated(bytes, module_name),
    ensures
        first == second,
{
}

/// The shape of the tree of a sound schema, before it is checked.
proof fn lemma_tree_shape(schema: SchemaView, module_name: Seq<char>)
    ensures
        ({
            let tree = tree_of(normalized(schema), module_name);
            let ordered = ordered_by_index(schema.pallets);
            let order = index_order(pallet_indices(schema.pallets));
            &&& is_index_order(pallet_indices(schema.pallets), order)
            &&& ordered.len() == schema.pallets.len()
            &&& tree.runtime_call.variants.len() == schema.pallets.len()
            &&& tree.pallet_calls.len() == schema.pallets.len()
            &&& unions(tree).len() == schema.pallets.len() + 1
            &&& unions(tree)[0] == tree.runtime_call
            &&& forall|k: int|
                0 <= k < schema.pallets.len() ==> {
                    &&& #[trigger] ordered[k] == schema.pallets[order[k]]
                    &&& unions(tree)[k + 1] == tree.pallet_calls[k]
                    &&& tree.runtime_call.variants[k] == variant_of_pallet(
                        resolved_pallet(schema.types, ordered[k]),
                    )
                    &&& tree.pallet_calls[k] == union_of_calls(
                        resolved_pallet(schema.types, ordered[k]),
                    )
                    &&& discriminants(tree.runtime_call)[k] == ordered[k].index
                    &&& discriminants(tree.pallet_calls[k]) =~= call_indices(ordered[k])
                    &&& follows(tree.pallet_calls[k], ordered[k])
                }
        }),
{
    lemma_index_order(pallet_indices(schema.pallets));
}

/// The variants of `RuntimeCall` stand by strictly ascending discriminant,
/// in whatever order the schema lists its pallets.
pub proof fn lemma_runtime_call_ascends(schema: SchemaView, module_name: Seq<char>)
    requires
        generated_from(schema, module_name) is Ok,
    ensures
        ({
            let variants = generated_from(schema, module_name)->Ok_0.runtime_call.variants;
            forall|i: int, j: int|
                0 <= i < j < variants.len() ==> (#[trigger] variants[i]).discriminant
                    < (#[trigger] variants[j]).discriminant
        }),
{
    let tree = tree_of(normalized(schema), module_name);
    let keys = pallet_indices(schema.pallets);
    let order = index_order(keys);
    let tags = discriminants(tree.runtime_call);
    lemma_tree_shape(schema, module_name);
    assert(!clashing(unions(tree)[0]));
    assert forall|i: int, j: int| 0 <= i < j < tree.runtime_call.variants.len() implies (
    #[trigger] tree.runtime_call.variants[i]).discriminant
        < (#[trigger] tree.runtime_call.variants[j]).discriminant by {
        assert(precedes(keys, order[i], order[j]));
        assert(tags[i] != tags[j]);
        assert(ordered_by_index(schema.pallets)[i].index == keys[order[i]]);
        assert(ordered_by_index(schema.pallets)[j].index == keys[order[j]]);
    }
}

/// The tree has one union of calls per pallet. They stand in the order of
/// the variants of `RuntimeCall`, that is by ascending pallet index, and the
/// variant of a pallet carries the union of the pallet's calls. The variants
/// of such a union are the pallet's operations in the order of the schema,
/// each with the index of its operation as discriminant.
pub proof fn lemma_call_unions_follow_schema(schema: SchemaView, module_name: Seq<char>)
    requires
        generated_from(schema, module_name) is Ok,
    ensures
        ({
            let tree = generated_from(schema, module_name)->Ok_0;
            let ordered = ordered_by_index(schema.pallets);
            &&& tree.runtime_call.variants.len() == schema.pallets.len()
            &&& tree.pallet_calls.len() == schema.pallets.len()
            &&& forall|k: int|
                0 <= k < schema.pallets.len() ==> {
                    &&& follows(#[trigger] tree.pallet_calls[k], ordered[k])
                    &&& tree.runtime_call.variants[k].name == ordered[k].name
                    &&& tree.runtime_call.variants[k].discriminant == ordered[k].index
                    &&& tree.runtime_call.variants[k].payload == PayloadView::Opaque(
                        tree.pallet_calls[k].name,
                    )
                }
            &&& forall|p: int|
                0 <= p < schema.pallets.len() ==> has_union_of(tree, #[trigger] schema.pallets[p])
        }),
{
    let tree = tree_of(normalized(schema), module_name);
    let keys = pallet_indices(schema.pallets);
    let order = index_order(keys);
    let ordered = ordered_by_index(schema.pallets);
    lemma_tree_shape(schema, module_name);
    lemma_index_order(keys);
    assert forall|k: int| 0 <= k < schema.pallets.len() implies {
        &&& follows(#[trigger] tree.pallet_calls[k], ordered[k])
        &&& tree.runtime_call.variants[k].name == ordered[k].name
        &&& tree.runtime_call.variants[k].discriminant == ordered[k].index
        &&& tree.runtime_call.variants[k].payload == PayloadView::Opaque(tree.pallet_calls[k].name)
    } by {
        assert(ordered[k] == schema.pallets[order[k]]);
    }
    assert forall|p: int| 0 <= p < schema.pallets.len() implies has_union_of(
        tree,
        #[trigger] schema.pallets[p],
    ) by {
        assert(order.contains(p));
        let k = choose|k: int| 0 <= k < order.len() && order[k] == p;
        assert(ordered[k] == schema.pallets[order[k]]);
        assert(follows(tree.pallet_calls[k], schema.pallets[p]));
    }
}

/// No two variants of one union of a generated tree have the same
/// discriminant, and no two unions the same name.
pub proof fn lemma_discriminants_are_distinct(schema: SchemaView, module_name: Seq<char>)
    requires
        generated_from(schema, module_name) is Ok,
    ensures
        ({
            let tree = generated_from(schema, module_name)->Ok_0;
            &&& well_formed(tree)
            &&& distinct(discriminants(tree.runtime_call))
            &&& forall|k: int|
                0 <= k < tree.pallet_calls.len() ==> distinct(
                    discriminants(#[trigger] tree.pallet_calls[k]),
                )
        }),
{
    let tree = tree_of(normalized(schema), module_name);
    lemma_tree_shape(schema, module_name);
    assert(!clashing(unions(tree)[0]));
    assert forall|k: int| 0 <= k < tree.pallet_calls.len() implies distinct(
        discriminants(#[trigger] tree.pallet_calls[k]),
    ) by {
        let pallet = ordered_by_index(schema.pallets)[k];
        assert(tree.pallet_calls[k] == union_of_calls(resolved_pallet(schema.types, pallet)));
        assert(!clashing(unions(tree)[k + 1]));
    }
}

/// A pass fails with a duplicate discriminant exactly on the sound schemas
/// in which two pallets, or two operations of one pallet, have one index.
pub proof fn lemma_duplicates_are_rejected(schema: SchemaView, module_name: Seq<char>)
    ensures
        (generated_from(schema, module_name) matches Err(
            GenerateErrorView::DuplicateDiscriminant(_),
        )) <==> sound(schema) && has_duplicate_discriminant(schema),
{
    let tree = tree_of(normalized(schema), module_name);
    let keys = pallet_indices(schema.pallets);
    let order = index_order(keys);
    let ordered = ordered_by_index(schema.pallets);
    let tags = discriminants(tree.runtime_call);
    lemma_tree_shape(schema, module_name);
    lemma_index_order(keys);
    if sound(schema) {
        if !distinct(keys) {
            let (a, b) = choose|a: int, b: int| 0 <= a < b < keys.len() && keys[a] == keys[b];
            assert(order.contains(a) && order.contains(b));
            let ka = choose|k: int| 0 <= k < order.len() && order[k] == a;
            let kb = choose|k: int| 0 <= k < order.len() && order[k] == b;
            assert(ordered[ka].index == keys[a] && ordered[kb].index == keys[b]);
            assert(tags[ka] == tags[kb]);
            assert(ka != kb);
            assert(clashing(unions(tree)[0]));
            assert(!clash_free(tree));
        }
        if exists|p: int|
            0 <= p < schema.pallets.len() && !distinct(call_indices(#[trigger] schema.pallets[p])) {
            let p = choose|p: int|
                0 <= p < schema.pallets.len() && !distinct(
                    call_indices(#[trigger] schema.pallets[p]),
                );
            assert(order.contains(p));
            let k = choose|k: int| 0 <= k < order.len() && order[k] == p;
            assert(ordered[k] == schema.pallets[p]);
            assert(clashing(unions(tree)[k + 1]));
            assert(!clash_free(tree));
        }
        if !clash_free(tree) {
            let u = choose|u: int|
                0 <= u < unions(tree).len() && clashing(#[trigger] unions(tree)[u]);
            if u == 0 {
                let (i, j) = choose|i: int, j: int| 0 <= i < j < tags.len() && tags[i] == tags[j];
                assert(ordered[i].index == keys[order[i]] && ordered[j].index == keys[order[j]]);
                assert(precedes(keys, order[i], order[j]));
                assert(keys[order[i]] == keys[order[j]]);
                assert(order[i] < order[j]);
                assert(!distinct(keys));
            } else {
                let k = u - 1;
                assert(ordered[k] == schema.pallets[order[k]]);
                assert(unions(tree)[k + 1] == tree.pallet_calls[k]);
                assert(!distinct(call_indices(schema.pallets[order[k]])));
            }
            assert(has_duplicate_discriminant(schema));
        }
    }
}

/// The names under which the unions of a schema would be emitted: that of
/// the union of the pallets first, then those of the unions of calls, in the
/// order in which the schema lists the pallets.
pub open spec fn union_names_of(pallets: Seq<PalletView>) -> Seq<Seq<char>> {
    Seq::new(
        pallets.len() + 1,
        |i: int|
            if i == 0 {
                runtime_call_name()
            } else {
                call_union_name(pallets[i - 1].name)
            },
    )
}

/// A pass gives a tree for exactly the schemas that are sound, have no
/// duplicate discriminant, and give every union a name of its own. A schema
/// that is not sound fails at the resolve step, whatever else holds of it;
/// a sound one with a duplicate discriminant fails with that; a sound one
/// without, in which two unions would have one name, fails with the
/// collision.
pub proof fn lemma_tree_is_owed(schema: SchemaView, module_name: Seq<char>)
    ensures
        generated_from(schema, module_name) is Ok <==> sound(schema)
            && !has_duplicate_discriminant(schema) && distinct(union_names_of(schema.pallets)),
        (generated_from(schema, module_name) matches Err(GenerateErrorView::SchemaIntegrity(_)))
            <==> !sound(schema),
        (generated_from(schema, module_name) matches Err(
            GenerateErrorView::IdentifierCollision(_),
        )) <==> sound(schema) && !has_duplicate_discriminant(schema) && !distinct(
            union_names_of(schema.pallets),
        ),
{
    let tree = tree_of(normalized(schema), module_name);
    let keys = pallet_indices(schema.pallets);
    let order = index_order(keys);
    let ordered = ordered_by_index(schema.pallets);
    let emitted = union_names(tree);
    let listed = union_names_of(schema.pallets);
    lemma_tree_shape(schema, module_name);
    lemma_index_order(keys);
    lemma_duplicates_are_rejected(schema, module_name);
    assert(emitted.len() == listed.len());
    assert(emitted[0] == listed[0]);
    assert forall|k: int| 0 <= k < schema.pallets.len() implies #[trigger] emitted[k + 1]
        == listed[order[k] + 1] by {
        assert(ordered[k] == schema.pallets[order[k]]);
        assert(unions(tree)[k + 1] == tree.pallet_calls[k]);
    }
    if !distinct(emitted) {
        let (a, b) = choose|a: int, b: int| 0 <= a < b < emitted.len() && emitted[a] == emitted[b];
        let la = if a == 0 { 0 } else { order[a - 1] + 1 };
        let lb = order[b - 1] + 1;
        assert(emitted[b] == listed[lb]) by {
            assert(emitted[(b - 1) + 1] == listed[order[b - 1] + 1]);
        }
        assert(emitted[a] == listed[la]) by {
            if a > 0 {
                assert(emitted[(a - 1) + 1] == listed[order[a - 1] + 1]);
            }
        }
        if a > 0 {
            assert(precedes(keys, order[a - 1], order[b - 1]));
        }
        assert(la != lb);
        if la < lb {
            assert(listed[la] == listed[lb]);
        } else {
            assert(listed[lb] == listed[la]);
        }
        assert(!distinct(listed));
    }
    if !distinct(listed) {
        let (i, j) = choose|i: int, j: int| 0 <= i < j < listed.len() && listed[i] == listed[j];
        assert(order.contains(j - 1));
        let kj = choose|k: int| 0 <= k < order.len() && order[k] == j - 1;
        assert(emitted[kj + 1] == listed[j]);
        if i == 0 {
            assert(emitted[0] == emitted[kj + 1]);
        } else {
            assert(order.contains(i - 1));
            let ki = choose|k: int| 0 <= k < order.len() && order[k] == i - 1;
            assert(emitted[ki + 1] == listed[i]);
            assert(ki != kj);
            if ki < kj {
                assert(emitted[ki + 1] == emitted[kj + 1]);
            } else {
                assert(emitted[kj + 1] == emitted[ki + 1]);
            }
        }
        assert(!distinct(emitted));
    }
}

/// Schemas that hold the same pallets and the same types give the same
/// outcome, in whatever order they list the pallets, where no two pallets
/// have one index.
pub proof fn lemma_listing_order_is_irrelevant(
    first: SchemaView,
    second: SchemaView,
    module_name: Seq<char>,
)
    requires
        first.types == second.types,
        first.pallets.to_multiset() == second.pallets.to_multiset(),
        distinct(pallet_indices(first.pallets)),
    ensures
        generated_from(first, module_name) == generated_from(second, module_name),
{
    broadcast use vstd::seq_lib::group_to_multiset_ensures;

    lemma_order_ignores_listing(first.pallets, second.pallets);
    assert forall|x: PalletView| first.pallets.contains(x) <==> second.pallets.contains(x) by {
        assert(first.pallets.contains(x) <==> first.pallets.to_multiset().count(x) > 0);
        assert(second.pallets.contains(x) <==> second.pallets.to_multiset().count(x) > 0);
    }
    if !sound(first) {
        let k = choose|k: int|
            0 <= k < first.pallets.len() && pallet_faulty(first.types, #[trigger] first.pallets[k]);
        assert(second.pallets.contains(first.pallets[k]));
        let p = choose|p: int|
            0 <= p < second.pallets.len() && second.pallets[p] == first.pallets[k];
        assert(pallet_faulty(second.types, second.pallets[p]));
    }
    if !sound(second) {
        let k = choose|k: int|
            0 <= k < second.pallets.len() && pallet_faulty(
                second.types,
                #[trigger] second.pallets[k],
            );
        assert(first.pallets.contains(second.pallets[k]));
        let p = choose|p: int|
            0 <= p < first.pallets.len() && first.pallets[p] == second.pallets[k];
        assert(pallet_faulty(first.types, first.pallets[p]));
    }
    assert(normalized(first) =~~= normalized(second));
}

/// A field of a generated tree has the name of its field in the schema, and
/// as its type the identifier of the type that the field refers to; where
/// that type has no identifier, it has `u8`.
pub proof fn lemma_fields_carry_their_type(
    schema: SchemaView,
    module_name: Seq<char>,
    k: int,
    c: int,
    f: int,
)
    requires
        generated_from(schema, module_name) is Ok,
        0 <= k < schema.pallets.len(),
        0 <= c < ordered_by_index(schema.pallets)[k].operations.len(),
        0 <= f < ordered_by_index(schema.pallets)[k].operations[c].fields.len(),
    ensures
        ({
            let tree = generated_from(schema, module_name)->Ok_0;
            let field = ordered_by_index(schema.pallets)[k].operations[c].fields[f];
            &&& field.name is Some
            &&& resolved(schema.types, field.type_ref) is Some
            &&& tree.pallet_calls[k].variants[c].payload matches PayloadView::Fields(fields)
            &&& fields.len() == ordered_by_index(schema.pallets)[k].operations[c].fields.len()
            &&& fields[f].name == field.name.unwrap()
            &&& match resolved(schema.types, field.type_ref).unwrap().ident {
                Some(ident) => fields[f].resolved_type == ident,
                None => fields[f].resolved_type == "u8"@,
            }
        }),
{
    let order = index_order(pallet_indices(schema.pallets));
    let ordered = ordered_by_index(schema.pallets);
    lemma_tree_shape(schema, module_name);
    assert(ordered[k] == schema.pallets[order[k]]);
    let pallet = schema.pallets[order[k]];
    let call = pallet.operations[c];
    let field = call.fields[f];
    assert(!pallet_faulty(schema.types, pallet));
    assert(!call_faulty(schema.types, call));
    assert(!field_faulty(schema.types, field));
}

} // verus!
