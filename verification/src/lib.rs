//! A typed call model for a blockchain runtime.
//!
//! A runtime describes itself by a binary schema: its pallets, the calls that
//! each pallet offers, and the types of the calls' arguments. This library
//! turns such a schema into a tree of tagged unions: one union with a variant
//! per pallet, and one union per pallet with a variant per call. Every
//! variant carries the discriminant that the schema gives it.

pub mod builder;
pub mod decode;
pub mod error;
pub mod generate;
pub mod laws;
pub mod order;
pub mod resolve;
pub mod schema;
pub mod search;
pub mod tree;

pub use builder::{assemble, build, validate};
pub use decode::{dangling_outer_enum, decode, find_outer_enum, TypeHead};
pub use error::{
    BuildError, DecodeError, DuplicateDiscriminantError, GenerateError, IdentifierCollisionError,
    SchemaIntegrityError, Stage,
};
pub use generate::{generate, generate_from_schema};
pub use resolve::{
    resolve_schema, NormalizedSchema, ResolvedCall, ResolvedField, ResolvedPallet,
};
pub use schema::{CallVariant, Field, Pallet, Schema, TypeDescriptor, TypeRegistry};
pub use tree::{EnumDef, FieldDef, Payload, TypeDefinitionTree, VariantDef};
