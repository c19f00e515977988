//! The failures of a generation pass.

use vstd::prelude::*;

verus! {

/// Why bytes give no schema.
#[derive(Clone, Debug, PartialEq, Eq)]
pub enum DecodeError {
    /// The bytes are no metadata blob: they are malformed or cut short. The
    /// description is the decoder's.
    Malformed { description: String },
    /// The blob is of version 14, and the first type that is named as its
    /// outer call enum declares an id that lies outside its type table.
    DanglingOuterEnum { declared_id: u32 },
    /// The blob is well encoded, but no schema can be made of it: it is of a
    /// version that cannot be read, or it lacks a type that its version must
    /// have. The description is the converter's.
    Unsupported { description: String },
}

/// A decode error, as specifications see it.
pub enum DecodeErrorView {
    Malformed { description: Seq<char> },
    DanglingOuterEnum { declared_id: u32 },
    Unsupported { description: Seq<char> },
}

impl View for DecodeError {
    type V = DecodeErrorView;

    open spec fn view(&self) -> DecodeErrorView {
        match self {
            DecodeError::Malformed { description } => DecodeErrorView::Malformed {
                description: description@,
            },
            DecodeError::DanglingOuterEnum { declared_id } => DecodeErrorView::DanglingOuterEnum {
                declared_id: *declared_id,
            },
            DecodeError::Unsupported { description } => DecodeErrorView::Unsupported {
                description: description@,
            },
        }
    }
}

/// The schema breaks a promise of its format. The error names the pallet and
/// the operation in which the first such field stands.
#[derive(Clone, Debug, PartialEq, Eq)]
pub enum SchemaIntegrityError {
    /// The field at `position` of the operation declares no name.
    MissingFieldName { pallet: String, operation: String, position: usize },
    /// The field refers to a type id that the registry does not hold.
    UnknownType { pallet: String, operation: String, field: String, type_ref: u32 },
}

/// A schema integrity error, as specifications see it.
pub enum SchemaIntegrityErrorView {
    MissingFieldName { pallet: Seq<char>, operation: Seq<char>, position: nat },
    UnknownType { pallet: Seq<char>, operation: Seq<char>, field: Seq<char>, type_ref: u32 },
}

impl View for SchemaIntegrityError {
    type V = SchemaIntegrityErrorView;

    open spec fn view(&self) -> SchemaIntegrityErrorView {
        match self {
            SchemaIntegrityError::MissingFieldName { pallet, operation, position } => {
                SchemaIntegrityErrorView::MissingFieldName {
                    pallet: pallet@,
                    operation: operation@,
                    position: *position as nat,
                }
            },
            SchemaIntegrityError::UnknownType { pallet, operation, field, type_ref } => {
                SchemaIntegrityErrorView::UnknownType {
                    pallet: pallet@,
                    operation: operation@,
                    field: field@,
                    type_ref: *type_ref,
                }
            },
        }
    }
}

/// Two variants of one union have the same discriminant. `first` and
/// `second` are the names of the two variants, in the order of the union.
#[derive(Clone, Debug, PartialEq, Eq)]
pub struct DuplicateDiscriminantError {
    pub union_name: String,
    pub discriminant: u8,
    pub first: String,
    pub second: String,
}

/// A duplicate discriminant error, as specifications see it.
pub struct DuplicateDiscriminantErrorView {
    pub union_name: Seq<char>,
    pub discriminant: u8,
    pub first: Seq<char>,
    pub second: Seq<char>,
}

impl View for DuplicateDiscriminantError {
    type V = DuplicateDiscriminantErrorView;

    open spec fn view(&self) -> DuplicateDiscriminantErrorView {
        DuplicateDiscriminantErrorView {
            union_name: self.union_name@,
            discriminant: self.discriminant,
            first: self.first@,
            second: self.second@,
        }
    }
}

/// Two unions would be emitted under one name.
#[derive(Clone, Debug, PartialEq, Eq)]
pub struct IdentifierCollisionError {
    pub identifier: String,
}

/// An identifier collision, as specifications see it.
pub struct IdentifierCollisionErrorView {
    pub identifier: Seq<char>,
}

impl View for IdentifierCollisionError {
    type V = IdentifierCollisionErrorView;

    open spec fn view(&self) -> IdentifierCollisionErrorView {
        IdentifierCollisionErrorView { identifier: self.identifier@ }
    }
}

/// Why no tree can be built of a resolved schema.
#[derive(Clone, Debug, PartialEq, Eq)]
pub enum BuildError {
    DuplicateDiscriminant(DuplicateDiscriminantError),
    IdentifierCollision(IdentifierCollisionError),
}

/// A failure of the build step, as specifications see it.
pub enum BuildErrorView {
    DuplicateDiscriminant(DuplicateDiscriminantErrorView),
    IdentifierCollision(IdentifierCollisionErrorView),
}

impl View for BuildError {
    type V = BuildErrorView;

    open spec fn view(&self) -> BuildErrorView {
        match self {
            BuildError::DuplicateDiscriminant(e) => BuildErrorView::DuplicateDiscriminant(e@),
            BuildError::IdentifierCollision(e) => BuildErrorView::IdentifierCollision(e@),
        }
    }
}

/// The step of a generation pass at which it failed.
#[derive(Clone, Copy, Debug, PartialEq, Eq, Structural)]
pub enum Stage {
    Decode,
    Resolve,
    Build,
}

/// Why a generation pass gave no tree.
#[derive(Clone, Debug, PartialEq, Eq)]
pub enum GenerateError {
    Decode(DecodeError),
    SchemaIntegrity(SchemaIntegrityError),
    DuplicateDiscriminant(DuplicateDiscriminantError),
    IdentifierCollision(IdentifierCollisionError),
}

/// A failure of a pass, as specifications see it.
pub enum GenerateErrorView {
    Decode(DecodeErrorView),
    SchemaIntegrity(SchemaIntegrityErrorView),
    DuplicateDiscriminant(DuplicateDiscriminantErrorView),
    IdentifierCollision(IdentifierCollisionErrorView),
}

impl View for GenerateError {
    type V = GenerateErrorView;

    open spec fn view(&self) -> GenerateErrorView {
        match self {
            GenerateError::Decode(e) => GenerateErrorView::Decode(e@),
            GenerateError::SchemaIntegrity(e) => GenerateErrorView::SchemaIntegrity(e@),
            GenerateError::DuplicateDiscriminant(e) => GenerateErrorView::DuplicateDiscriminant(e@),
            GenerateError::IdentifierCollision(e) => GenerateErrorView::IdentifierCollision(e@),
        }
    }
}

/// The step at which a failure of this kind arises.
pub open spec fn stage_of(error: GenerateErrorView) -> Stage {
    match error {
        GenerateErrorView::Decode(_) => Stage::Decode,
        GenerateErrorView::SchemaIntegrity(_) => Stage::Resolve,
        GenerateErrorView::DuplicateDiscriminant(_) => Stage::Build,
        GenerateErrorView::IdentifierCollision(_) => Stage::Build,
    }
}

/// A failure of the build step, as a failure of the whole pass.
pub open spec fn build_failure(error: BuildErrorView) -> GenerateErrorView {
    match error {
        BuildErrorView::DuplicateDiscriminant(e) => GenerateErrorView::DuplicateDiscriminant(e),
        BuildErrorView::IdentifierCollision(e) => GenerateErrorView::IdentifierCollision(e),
    }
}

impl GenerateError {
    /// The step at which the pass failed.
    pub fn stage(&self) -> (stage: Stage)
        ensures
            stage == stage_of(self@),
    {
        match self {
            GenerateError::Decode(_) => Stage::Decode,
            GenerateError::SchemaIntegrity(_) => Stage::Resolve,
            GenerateError::DuplicateDiscriminant(_) => Stage::Build,
            GenerateError::IdentifierCollision(_) => Stage::Build,
        }
    }

    /// Wraps a failure of the build step.
    pub fn from_build(error: BuildError) -> (wrapped: GenerateError)
        ensures
            wrapped@ == build_failure(error@),
    {
        match error {
            BuildError::DuplicateDiscriminant(e) => GenerateError::DuplicateDiscriminant(e),
            BuildError::IdentifierCollision(e) => GenerateError::IdentifierCollision(e),
        }
    }
}

} // verus!
