//! A generation pass: decode the schema, resolve it, build the tree.

use crate::builder::{build, build_outcome};
use crate::decode::{decode, decoded_schema};
use crate::error::{build_failure, GenerateError, GenerateErrorView};
use crate::resolve::{integrity_fault, normalized, resolve_schema, sound};
use crate::schema::{Schema, SchemaView};
use crate::tree::{TypeDefinitionTree, TypeDefinitionTreeView};
use vstd::prelude::*;

verus! {

/// The outcome of a pass, seen through the views of the tree and the error.
pub open spec fn outcome_view(outcome: Result<TypeDefinitionTree, GenerateError>) -> Result<
    TypeDefinitionTreeView,
    GenerateErrorView,
> {
    match outcome {
        Ok(tree) => Ok(tree@),
        Err(error) => Err(error@),
    }
}

/// What a pass gives for a decoded schema. A schema that is not sound fails
/// at the resolve step; a sound one gives what the build step gives for its
/// resolved form.
pub open spec fn generated_from(schema: SchemaView, module_name: Seq<char>) -> Result<
    TypeDefinitionTreeView,
    GenerateErrorView,
> {
    if !sound(schema) {
        Err(GenerateErrorView::SchemaIntegrity(integrity_fault(schema)))
    } else {
        match build_outcome(normalized(schema), module_name) {
            Ok(tree) => Ok(tree),
            Err(error) => Err(build_failure(error)),
        }
    }
}

/// What a pass gives for the bytes of a schema.
pub open spec fn generated(bytes: Seq<u8>, module_name: Seq<char>) -> Result<
    TypeDefinitionTreeView,
    GenerateErrorView,
> {
    match decoded_schema(bytes) {
        Err(error) => Err(GenerateErrorView::Decode(error)),
        Ok(schema) => generated_from(schema, module_name),
    }
}

/// Generates the call model of a decoded schema. The pallets are taken by
/// ascending index and the calls of each pallet in the order of the schema;
/// every variant gets the index of its pallet or call as discriminant.
pub fn generate_from_schema(schema: &Schema, module_name: &str) -> (outcome: Result<
    TypeDefinitionTree,
    GenerateError,
>)
    ensures
        outcome_view(outcome) == generated_from(schema@, module_name@),
{
    match resolve_schema(schema) {
        Err(error) => Err(GenerateError::SchemaIntegrity(error)),
        Ok(resolved) => {
            match build(&resolved, module_name) {
                Ok(tree) => Ok(tree),
                Err(error) => Err(GenerateError::from_build(error)),
            }
        },
    }
}

/// Generates the call model of a runtime from the bytes of its schema. There
/// is either a complete tree or an error; the error tells whether the bytes
/// could not be decoded, the schema could not be resolved, or the tree could
/// not be built.
pub fn generate(schema_bytes: &[u8], module_name: &str) -> (outcome: Result<
    TypeDefinitionTree,
    GenerateError,
>)
    ensures
        outcome_view(outcome) == generated(schema_bytes@, module_name@),
{
    match decode(schema_bytes) {
        Err(error) => Err(GenerateError::Decode(error)),
        Ok(schema) => generate_from_schema(&schema, module_name),
    }
}

} // verus!
