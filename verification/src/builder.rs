//! Building the call model of a resolved schema.

use crate::error::{
    BuildError, BuildErrorView, DuplicateDiscriminantError, DuplicateDiscriminantErrorView,
    IdentifierCollisionError, IdentifierCollisionErrorView,
};
use crate::resolve::{
    NormalizedSchema, NormalizedSchemaView, ResolvedCall, ResolvedCallView, ResolvedFieldView,
    ResolvedPallet, ResolvedPalletView,
};
use crate::schema::views;
use crate::search::{
    distinct, first_equal, first_repeat, first_such, is_first_equal, is_first_repeat,
    is_first_such, lemma_first_repeat, lemma_first_such, lemma_no_repeat, repeats,
};
use crate::tree::{
    discriminants, union_names, unions, EnumDef, EnumDefView, FieldDef, FieldDefView, Payload,
    PayloadView, TypeDefinitionTree, TypeDefinitionTreeView, VariantDef, VariantDefView,
};
use vstd::prelude::*;

verus! {

/// The name of the union of the pallets.
pub open spec fn runtime_call_name() -> Seq<char> {
    "RuntimeCall"@
}

/// The name of the union of a pallet's calls.
pub open spec fn call_union_name(pallet_name: Seq<char>) -> Seq<char> {
    pallet_name + "Call"@
}

/// The field of a variant that stands for a field of a call.
pub open spec fn field_def_of(field: ResolvedFieldView) -> FieldDefView {
    FieldDefView { name: field.name, resolved_type: field.resolved_type }
}

/// The variant that stands for a call: it has the call's name, the call's
/// index as discriminant, and the call's fields.
pub open spec fn variant_of_call(call: ResolvedCallView) -> VariantDefView {
    VariantDefView {
        name: call.name,
        discriminant: call.index,
        payload: PayloadView::Fields(
            Seq::new(call.fields.len(), |i: int| field_def_of(call.fields[i])),
        ),
    }
}

/// The union of a pallet's calls, in their order.
pub open spec fn union_of_calls(pallet: ResolvedPalletView) -> EnumDefView {
    EnumDefView {
        name: call_union_name(pallet.name),
        variants: Seq::new(
            pallet.operations.len(),
            |i: int| variant_of_call(pallet.operations[i]),
        ),
    }
}

/// The variant that stands for a pallet: it has the pallet's name, the
/// pallet's index as discriminant, and carries the union of the pallet's
/// calls.
pub open spec fn variant_of_pallet(pallet: ResolvedPalletView) -> VariantDefView {
    VariantDefView {
        name: pallet.name,
        discriminant: pallet.index,
        payload: PayloadView::Opaque(call_union_name(pallet.name)),
    }
}

/// The tree of a resolved schema, whether or not its discriminants and names
/// are fit to be emitted.
pub open spec fn tree_of(
    schema: NormalizedSchemaView,
    module_name: Seq<char>,
) -> TypeDefinitionTreeView {
    TypeDefinitionTreeView {
        module_name,
        runtime_call: EnumDefView {
            name: runtime_call_name(),
            variants: Seq::new(
                schema.pallets.len(),
                |k: int| variant_of_pallet(schema.pallets[k]),
            ),
        },
        pallet_calls: Seq::new(schema.pallets.len(), |k: int| union_of_calls(schema.pallets[k])),
    }
}

/// Two variants of the union have one discriminant.
pub open spec fn clashing(union: EnumDefView) -> bool {
    !distinct(discriminants(union))
}

/// No union of the tree has two variants with one discriminant.
pub open spec fn clash_free(tree: TypeDefinitionTreeView) -> bool {
    forall|k: int| 0 <= k < unions(tree).len() ==> !clashing(#[trigger] unions(tree)[k])
}

/// The tree can be emitted: within each union the discriminants differ, and
/// the unions differ in their names.
pub open spec fn well_formed(tree: TypeDefinitionTreeView) -> bool {
    clash_free(tree) && distinct(union_names(tree))
}

/// What is reported of a clashing union: the first variant that repeats a
/// discriminant, and the first variant that has that discriminant.
pub open spec fn clash_report(union: EnumDefView) -> DuplicateDiscriminantErrorView {
    let second = first_repeat(discriminants(union));
    let first = first_equal(discriminants(union), second);
    DuplicateDiscriminantErrorView {
        union_name: union.name,
        discriminant: union.variants[second].discriminant,
        first: union.variants[first].name,
        second: union.variants[second].name,
    }
}

/// What is reported of a tree that is not well formed. A clash of
/// discriminants is reported before a collision of names, and of the first
/// union that has one.
pub open spec fn tree_fault(tree: TypeDefinitionTreeView) -> BuildErrorView {
    if !clash_free(tree) {
        BuildErrorView::DuplicateDiscriminant(
            clash_report(unions(tree)[first_such(unions(tree), |u: EnumDefView| clashing(u))]),
        )
    } else {
        BuildErrorView::IdentifierCollision(
            IdentifierCollisionErrorView {
                identifier: union_names(tree)[first_repeat(union_names(tree))],
            },
        )
    }
}

/// The tree of a resolved schema, or the reason why there is none.
pub open spec fn build_outcome(schema: NormalizedSchemaView, module_name: Seq<char>) -> Result<
    TypeDefinitionTreeView,
    BuildErrorView,
> {
    let tree = tree_of(schema, module_name);
    if well_formed(tree) {
        Ok(tree)
    } else {
        Err(tree_fault(tree))
    }
}

/// Looks for two variants of the union with one discriminant.
pub fn find_clash(union: &EnumDef) -> (found: Option<DuplicateDiscriminantError>)
    ensures
        match found {
            None => !clashing(union@),
            Some(e) => clashing(union@) && e@ == clash_report(union@),
        },
{
    let ghost tags = discriminants(union@);
    let mut j: usize = 0;
    while j < union.variants.len()
        invariant
            j <= union.variants.len(),
            tags == discriminants(union@),
            forall|k: int| 0 <= k < j ==> !#[trigger] repeats(tags, k),
        decreases union.variants.len() - j,
    {
        let mut i: usize = 0;
        while i < j
            invariant
                i <= j < union.variants.len(),
                tags == discriminants(union@),
                forall|k: int| 0 <= k < j ==> !#[trigger] repeats(tags, k),
                forall|k: int| 0 <= k < i ==> #[trigger] tags[k] != tags[j as int],
            decreases j - i,
        {
            assert(tags[i as int] == union.variants@[i as int].discriminant);
            assert(tags[j as int] == union.variants@[j as int].discriminant);
            if union.variants[i].discriminant == union.variants[j].discriminant {
                proof {
                    assert(is_first_equal(tags, j as int, i as int));
                    assert(is_first_repeat(tags, j as int));
                    lemma_first_repeat(tags, i as int, j as int);
                }
                return Some(
                    DuplicateDiscriminantError {
                        union_name: union.name.clone(),
                        discriminant: union.variants[j].discriminant,
                        first: union.variants[i].name.clone(),
                        second: union.variants[j].name.clone(),
                    },
                );
            }
            i += 1;
        }
        j += 1;
    }
    proof {
        lemma_no_repeat(tags);
    }
    None
}

/// The names of the unions of the tree, copied.
fn copy_union_names(tree: &TypeDefinitionTree) -> (names: Vec<String>)
    ensures
        views(names@) == union_names(tree@),
{
    let mut names: Vec<String> = Vec::new();
    names.push(tree.runtime_call.name.clone());
    let mut k: usize = 0;
    while k < tree.pallet_calls.len()
        invariant
            k <= tree.pallet_calls.len(),
            names@.len() == k + 1,
            forall|i: int|
                0 <= i < names@.len() ==> (#[trigger] names@[i])@ == union_names(tree@)[i],
        decreases tree.pallet_calls.len() - k,
    {
        assert(union_names(tree@)[k + 1] == tree.pallet_calls@[k as int]@.name);
        names.push(tree.pallet_calls[k].name.clone());
        k += 1;
    }
    assert(views(names@) =~= union_names(tree@));
    names
}

/// Looks for two unions of the tree with one name.
pub fn find_collision(tree: &TypeDefinitionTree) -> (found: Option<IdentifierCollisionError>)
    ensures
        match found {
            None => distinct(union_names(tree@)),
            Some(e) => !distinct(union_names(tree@)) && e@.identifier == union_names(
                tree@,
            )[first_repeat(union_names(tree@))],
        },
{
    let names = copy_union_names(tree);
    let ghost ids = union_names(tree@);
    let mut j: usize = 0;
    while j < names.len()
        invariant
            j <= names.len(),
            ids == views(names@),
            ids == union_names(tree@),
            forall|k: int| 0 <= k < j ==> !#[trigger] repeats(ids, k),
        decreases names.len() - j,
    {
        let mut i: usize = 0;
        while i < j
            invariant
                i <= j < names.len(),
                ids == views(names@),
                ids == union_names(tree@),
                forall|k: int| 0 <= k < j ==> !#[trigger] repeats(ids, k),
                forall|k: int| 0 <= k < i ==> #[trigger] ids[k] != ids[j as int],
            decreases j - i,
        {
            assert(ids[i as int] == names@[i as int]@);
            assert(ids[j as int] == names@[j as int]@);
            if names[i] == names[j] {
                proof {
                    assert(is_first_equal(ids, j as int, i as int));
                    assert(is_first_repeat(ids, j as int));
                    lemma_first_repeat(ids, i as int, j as int);
                }
                return Some(IdentifierCollisionError { identifier: names[j].clone() });
            }
            i += 1;
        }
        j += 1;
    }
    proof {
        lemma_no_repeat(ids);
    }
    None
}

/// Checks that a tree can be emitted.
pub fn validate(tree: &TypeDefinitionTree) -> (r: Result<(), BuildError>)
    ensures
        match r {
            Ok(_) => well_formed(tree@),
            Err(e) => !well_formed(tree@) && e@ == tree_fault(tree@),
        },
{
    let ghost all = unions(tree@);
    let ghost bad = |u: EnumDefView| clashing(u);
    match find_clash(&tree.runtime_call) {
        Some(e) => {
            proof {
                assert(all[0] == tree.runtime_call@);
                assert(is_first_such(all, bad, 0));
                lemma_first_such(all, bad, 0);
            }
            return Err(BuildError::DuplicateDiscriminant(e));
        },
        None => {},
    }
    let mut k: usize = 0;
    while k < tree.pallet_calls.len()
        invariant
            k <= tree.pallet_calls.len(),
            all == unions(tree@),
            bad == |u: EnumDefView| clashing(u),
            forall|i: int| 0 <= i < k + 1 ==> !clashing(#[trigger] all[i]),
        decreases tree.pallet_calls.len() - k,
    {
        assert(all[k + 1] == tree.pallet_calls@[k as int]@);
        match find_clash(&tree.pallet_calls[k]) {
            Some(e) => {
                proof {
                    assert(bad(all[k + 1]));
                    assert(is_first_such(all, bad, k + 1));
                    lemma_first_such(all, bad, k + 1);
                }
                return Err(BuildError::DuplicateDiscriminant(e));
            },
            None => {},
        }
        k += 1;
    }
    match find_collision(tree) {
        Some(e) => Err(BuildError::IdentifierCollision(e)),
        None => Ok(()),
    }
}

/// The variant that stands for a call.
pub fn call_variant(call: &ResolvedCall) -> (variant: VariantDef)
    ensures
        variant@ == variant_of_call(call@),
{
    let mut fields: Vec<FieldDef> = Vec::new();
    let mut i: usize = 0;
    while i < call.fields.len()
        invariant
            i <= call.fields.len(),
            fields@.len() == i,
            forall|j: int| 0 <= j < i ==> (#[trigger] fields@[j])@ == field_def_of(call@.fields[j]),
        decreases call.fields.len() - i,
    {
        let field = &call.fields[i];
        assert(call@.fields[i as int] == field@);
        fields.push(
            FieldDef { name: field.name.clone(), resolved_type: field.resolved_type.clone() },
        );
        i += 1;
    }
    let variant = VariantDef {
        name: call.name.clone(),
        discriminant: call.index,
        payload: Payload::Fields(fields),
    };
    assert(variant@ =~~= variant_of_call(call@));
    variant
}

/// The union of a pallet's calls.
pub fn call_union(pallet: &ResolvedPallet) -> (union: EnumDef)
    ensures
        union@ == union_of_calls(pallet@),
{
    let mut variants: Vec<VariantDef> = Vec::new();
    let mut i: usize = 0;
    while i < pallet.operations.len()
        invariant
            i <= pallet.operations.len(),
            variants@.len() == i,
            forall|j: int|
                0 <= j < i ==> (#[trigger] variants@[j])@ == variant_of_call(
                    pallet@.operations[j],
                ),
        decreases pallet.operations.len() - i,
    {
        assert(pallet@.operations[i as int] == pallet.operations@[i as int]@);
        variants.push(call_variant(&pallet.operations[i]));
        i += 1;
    }
    let union = EnumDef { name: pallet.name.clone().concat("Call"), variants };
    assert(union@ =~~= union_of_calls(pallet@));
    union
}

/// The variant that stands for a pallet.
pub fn pallet_variant(pallet: &ResolvedPallet) -> (variant: VariantDef)
    ensures
        variant@ == variant_of_pallet(pallet@),
{
    VariantDef {
        name: pallet.name.clone(),
        discriminant: pallet.index,
        payload: Payload::Opaque(pallet.name.clone().concat("Call")),
    }
}

/// Puts the tree of a resolved schema together, without checking it.
pub fn assemble(schema: &NormalizedSchema, module_name: &str) -> (tree: TypeDefinitionTree)
    ensures
        tree@ == tree_of(schema@, module_name@),
{
    let mut variants: Vec<VariantDef> = Vec::new();
    let mut pallet_calls: Vec<EnumDef> = Vec::new();
    let mut k: usize = 0;
    while k < schema.pallets.len()
        invariant
            k <= schema.pallets.len(),
            variants@.len() == k,
            pallet_calls@.len() == k,
            forall|j: int|
                0 <= j < k ==> (#[trigger] variants@[j])@ == variant_of_pallet(schema@.pallets[j]),
            forall|j: int|
                0 <= j < k ==> (#[trigger] pallet_calls@[j])@ == union_of_calls(
                    schema@.pallets[j],
                ),
        decreases schema.pallets.len() - k,
    {
        assert(schema@.pallets[k as int] == schema.pallets@[k as int]@);
        variants.push(pallet_variant(&schema.pallets[k]));
        pallet_calls.push(call_union(&schema.pallets[k]));
        k += 1;
    }
    let tree = TypeDefinitionTree {
        module_name: String::from_str(module_name),
        runtime_call: EnumDef { name: String::from_str("RuntimeCall"), variants },
        pallet_calls,
    };
    assert(tree@ =~~= tree_of(schema@, module_name@));
    tree
}

/// Builds the call model of a resolved schema: the union `RuntimeCall` with
/// one variant per pallet, and for each pallet the union of its calls. There
/// is no tree where two variants of one union have the same discriminant, or
/// two unions the same name.
pub fn build(schema: &NormalizedSchema, module_name: &str) -> (r: Result<
    TypeDefinitionTree,
    BuildError,
>)
    ensures
        match r {
            Ok(tree) => Ok::<TypeDefinitionTreeView, BuildErrorView>(tree@) == build_outcome(
                schema@,
                module_name@,
            ),
            Err(e) => Err::<TypeDefinitionTreeView, BuildErrorView>(e@) == build_outcome(
                schema@,
                module_name@,
            ),
        },
{
    let tree = assemble(schema, module_name);
    match validate(&tree) {
        Ok(_) => Ok(tree),
        Err(e) => Err(e),
    }
}

} // verus!
