//! Reading a schema from its binary form.
//!
//! The binary layout is that of `frame-metadata`, which decodes it;
//! `subxt-metadata` converts what was decoded into one form for all versions.
//! This module copies what the converter gives into the library's own types.
//!
//! The converter indexes the type table of a version-14 blob with an id that
//! the blob declares. This module looks at the table first, and hands to the
//! converter only a blob on which it returns.

use crate::error::{DecodeError, DecodeErrorView};
use crate::schema::{
    views, CallVariant, Field, Pallet, PalletView, Schema, SchemaView, TypeDescriptor,
    TypeDescriptorView, TypeRegistry,
};
use crate::search::{first_such, is_first_such, lemma_first_such};
use parity_scale_codec::Decode;
use vstd::prelude::*;

verus! {

/// What the converter looks at in a type of a version-14 blob when it
/// searches the outer enums: the id that the type declares, which need not
/// be its position in the table, the last segment of its path, and whether
/// it is a variant type.
#[derive(Clone, Debug, PartialEq, Eq)]
pub struct TypeHead {
    pub declared_id: u32,
    pub ident: Option<String>,
    pub is_variant: bool,
}

/// A type head, as specifications see it.
pub struct TypeHeadView {
    pub declared_id: u32,
    pub ident: Option<Seq<char>>,
    pub is_variant: bool,
}

impl View for TypeHead {
    type V = TypeHeadView;

    open spec fn view(&self) -> TypeHeadView {
        TypeHeadView {
            declared_id: self.declared_id,
            ident: self.ident.deep_view(),
            is_variant: self.is_variant,
        }
    }
}

/// A decoded blob: the heads of its types, and what converting it gives.
#[verifier::ext_equal]
pub struct BlobView {
    pub type_heads: Seq<TypeHeadView>,
    pub conversion: Result<SchemaView, Seq<char>>,
}

/// The type is a variant type whose path ends in `name`.
pub open spec fn is_outer_enum(head: TypeHeadView, name: Seq<char>) -> bool {
    head.is_variant && head.ident == Some(name)
}

/// The id that the first variant type named `name` declares, if there is
/// such a type.
pub open spec fn outer_enum(heads: Seq<TypeHeadView>, name: Seq<char>) -> Option<u32> {
    if exists|i: int| 0 <= i < heads.len() && is_outer_enum(#[trigger] heads[i], name) {
        Some(heads[first_such(heads, |h: TypeHeadView| is_outer_enum(h, name))].declared_id)
    } else {
        None
    }
}

/// The declared id of the outer call enum, where the converter would index
/// the type table with it and it lies outside the table. The converter does
/// so where the table names an outer call enum and an outer event enum, but
/// no outer error enum.
pub open spec fn dangling_call_enum(heads: Seq<TypeHeadView>) -> Option<u32> {
    let call = outer_enum(heads, "RuntimeCall"@);
    let event = outer_enum(heads, "RuntimeEvent"@);
    let error = outer_enum(heads, "RuntimeError"@);
    if call is Some && event is Some && error is None && call.unwrap() >= heads.len() {
        call
    } else {
        None
    }
}

/// `frame_metadata::RuntimeMetadataPrefixed`, a decoded blob of any version.
/// Nothing is known of a value of it but what the functions below read out
/// of it.
#[verifier::external_type_specification]
#[verifier::external_body]
pub struct ExOutsideBlob(frame_metadata::RuntimeMetadataPrefixed);

/// `subxt_metadata::Metadata`, the converter's form of a schema. Nothing is
/// known of a value of it but what the functions below read out of it.
#[verifier::external_type_specification]
#[verifier::external_body]
pub struct ExOutsideMetadata(subxt_metadata::Metadata);

/// `parity_scale_codec::Error`, with which the decoder refuses bytes.
#[verifier::external_type_specification]
#[verifier::external_body]
pub struct ExCodecError(parity_scale_codec::Error);

/// `subxt_metadata::TryFromError`, with which the converter refuses a blob.
#[verifier::external_type_specification]
#[verifier::external_body]
pub struct ExConversionError(subxt_metadata::TryFromError);

/// What decoding a sequence of bytes as a prefixed metadata blob gives: the
/// blob, or the description of the decoder's error. Decoding looks at the
/// bytes only.
pub uninterp spec fn decoded_blob(bytes: Seq<u8>) -> Result<BlobView, Seq<char>>;

/// The heads of the types of a version-14 blob, in the order of its type
/// table. A blob of another version has none.
pub uninterp spec fn blob_type_heads(blob: frame_metadata::RuntimeMetadataPrefixed) -> Seq<
    TypeHeadView,
>;

/// What converting a blob gives: the schema, or the description of the
/// converter's error. Converting looks at the blob only.
pub uninterp spec fn blob_conversion(blob: frame_metadata::RuntimeMetadataPrefixed) -> Result<
    SchemaView,
    Seq<char>,
>;

/// The text that a decoder's error is displayed as.
pub uninterp spec fn codec_error_text(error: parity_scale_codec::Error) -> Seq<char>;

/// The text that a converter's error is displayed as.
pub uninterp spec fn conversion_error_text(error: subxt_metadata::TryFromError) -> Seq<char>;

/// The pallets that a converted `subxt_metadata::Metadata` holds, in the
/// order in which its `pallets()` hands them out. The operations of a pallet
/// are its call variants, and there are none where the pallet has no call
/// type.
pub uninterp spec fn outside_pallets(m: subxt_metadata::Metadata) -> Seq<PalletView>;

/// The type table that a converted `subxt_metadata::Metadata` holds: for
/// each type of `types()`, by position, the last segment of its path. The
/// type at position `id` is the one that `types().resolve(id)` finds.
pub uninterp spec fn outside_types(m: subxt_metadata::Metadata) -> Seq<TypeDescriptorView>;

/// The schema that a sequence of bytes encodes, or the reason why it encodes
/// none.
pub open spec fn decoded_schema(bytes: Seq<u8>) -> Result<SchemaView, DecodeErrorView> {
    match decoded_blob(bytes) {
        Err(description) => Err(DecodeErrorView::Malformed { description }),
        Ok(blob) => match dangling_call_enum(blob.type_heads) {
            Some(declared_id) => Err(DecodeErrorView::DanglingOuterEnum { declared_id }),
            None => match blob.conversion {
                Ok(schema) => Ok(schema),
                Err(description) => Err(DecodeErrorView::Unsupported { description }),
            },
        },
    }
}

/// Calls `frame_metadata::RuntimeMetadataPrefixed::decode`, the type's impl
/// of `parity_scale_codec::Decode`, on the bytes. Whether it succeeds, and
/// what comes back, depends on the bytes alone.
#[verifier::external_body]
fn decode_blob(bytes: &[u8]) -> (r: Result<
    frame_metadata::RuntimeMetadataPrefixed,
    parity_scale_codec::Error,
>)
    ensures
        match r {
            Ok(blob) => decoded_blob(bytes@) == Ok::<BlobView, Seq<char>>(
                (BlobView {
                    type_heads: blob_type_heads(blob),
                    conversion: blob_conversion(blob),
                }),
            ),
            Err(error) => decoded_blob(bytes@) == Err::<BlobView, Seq<char>>(
                codec_error_text(error),
            ),
        },
{
    let mut input: &[u8] = bytes;
    frame_metadata::RuntimeMetadataPrefixed::decode(&mut input)
}

/// Reads the type table of a version-14 blob, the field `types.types` of
/// `frame_metadata::v14::RuntimeMetadataV14`, and hands out for each type the
/// field `id`, what `scale_info::Path::ident` returns for its path, and
/// whether its definition is `scale_info::TypeDef::Variant`. For a blob of
/// another version it hands out nothing.
#[verifier::external_body]
fn type_heads(blob: &frame_metadata::RuntimeMetadataPrefixed) -> (heads: Vec<TypeHead>)
    ensures
        views(heads@) == blob_type_heads(*blob),
{
    match &blob.1 {
        frame_metadata::RuntimeMetadata::V14(m) => m.types.types.iter().map(
            |t| TypeHead {
                declared_id: t.id,
                ident: t.ty.path.ident(),
                is_variant: matches!(t.ty.type_def, scale_info::TypeDef::Variant(_)),
            },
        ).collect(),
        _ => Vec::new(),
    }
}

/// Calls `subxt_metadata::Metadata::try_from` on a decoded blob. For a
/// version-14 blob the converter indexes the type table with the declared id
/// of the outer call enum, where it finds that enum and the outer event enum
/// but no outer error enum: the `requires` keeps such a blob out where the id
/// lies outside the table. Whether the call succeeds, and what comes back,
/// depends on the blob alone.
#[verifier::external_body]
fn convert_blob(blob: frame_metadata::RuntimeMetadataPrefixed) -> (r: Result<
    subxt_metadata::Metadata,
    subxt_metadata::TryFromError,
>)
    requires
        dangling_call_enum(blob_type_heads(blob)) is None,
    ensures
        match r {
            Ok(m) => blob_conversion(blob) == Ok::<SchemaView, Seq<char>>(
                (SchemaView { pallets: outside_pallets(m), types: outside_types(m) }),
            ),
            Err(error) => blob_conversion(blob) == Err::<SchemaView, Seq<char>>(
                conversion_error_text(error),
            ),
        },
{
    subxt_metadata::Metadata::try_from(blob)
}

/// Displays a `parity_scale_codec::Error`, through its impl of `Display`.
#[verifier::external_body]
fn describe_codec_error(error: &parity_scale_codec::Error) -> (text: String)
    ensures
        text@ == codec_error_text(*error),
{
    error.to_string()
}

/// Displays a `subxt_metadata::TryFromError`, through its impl of `Display`.
#[verifier::external_body]
fn describe_conversion_error(error: &subxt_metadata::TryFromError) -> (text: String)
    ensures
        text@ == conversion_error_text(*error),
{
    error.to_string()
}

/// Walks `subxt_metadata::Metadata::pallets` and hands out, for each pallet,
/// what `PalletMetadata::name` and `PalletMetadata::index` return.
#[verifier::external_body]
fn pallet_heads(m: &subxt_metadata::Metadata) -> (heads: Vec<(String, u8)>)
    ensures
        heads@.len() == outside_pallets(*m).len(),
        forall|i: int|
            0 <= i < heads@.len() ==> (#[trigger] heads@[i]).0@ == outside_pallets(*m)[i].name
                && heads@[i].1 == outside_pallets(*m)[i].index,
{
    m.pallets().map(|p| (p.name().to_owned(), p.index())).collect()
}

/// Takes the pallet at `position` in `subxt_metadata::Metadata::pallets` and
/// asks `PalletMetadata::call_variants` for its call variants. Where that
/// returns `None` the pallet has no operations; otherwise this hands out the
/// name and the index of each variant, in their order.
#[verifier::external_body]
fn call_heads(m: &subxt_metadata::Metadata, position: usize) -> (heads: Option<Vec<(String, u8)>>)
    requires
        position < outside_pallets(*m).len(),
    ensures
        match heads {
            None => outside_pallets(*m)[position as int].operations.len() == 0,
            Some(heads) => {
                &&& heads@.len() == outside_pallets(*m)[position as int].operations.len()
                &&& forall|i: int|
                    0 <= i < heads@.len() ==> (#[trigger] heads@[i]).0@ == outside_pallets(
                        *m,
                    )[position as int].operations[i].name && heads@[i].1 == outside_pallets(
                        *m,
                    )[position as int].operations[i].index
            },
        },
{
    let pallet = m.pallets().nth(position).unwrap();
    pallet.call_variants().map(|calls| calls.iter().map(|v| (v.name.clone(), v.index)).collect())
}

/// Takes the call variant at `call` of the pallet at `position`, as
/// `PalletMetadata::call_variants` returns it, and hands out the name and the
/// type id of each of its fields, in their order.
#[verifier::external_body]
fn call_fields(m: &subxt_metadata::Metadata, position: usize, call: usize) -> (fields: Vec<Field>)
    requires
        position < outside_pallets(*m).len(),
        call < outside_pallets(*m)[position as int].operations.len(),
    ensures
        views(fields@) == outside_pallets(*m)[position as int].operations[call as int].fields,
{
    let pallet = m.pallets().nth(position).unwrap();
    let variant = &pallet.call_variants().unwrap()[call];
    variant.fields.iter().map(|f| Field { name: f.name.clone(), type_ref: f.ty.id }).collect()
}

/// Walks the type table behind `subxt_metadata::Metadata::types` and hands
/// out, for each type, what `scale_info::Path::ident` returns for its path.
#[verifier::external_body]
fn type_descriptors(m: &subxt_metadata::Metadata) -> (types: Vec<TypeDescriptor>)
    ensures
        views(types@) == outside_types(*m),
{
    m.types().types.iter().map(|t| TypeDescriptor { ident: t.ty.path.ident() }).collect()
}

/// The calls of the pallet at `position`, copied out of the decoded value. A
/// pallet without a call type has none.
fn read_calls(m: &subxt_metadata::Metadata, position: usize) -> (calls: Vec<CallVariant>)
    requires
        position < outside_pallets(*m).len(),
    ensures
        views(calls@) == outside_pallets(*m)[position as int].operations,
{
    let mut calls: Vec<CallVariant> = Vec::new();
    match call_heads(m, position) {
        None => {},
        Some(heads) => {
            let mut i: usize = 0;
            while i < heads.len()
                invariant
                    position < outside_pallets(*m).len(),
                    heads@.len() == outside_pallets(*m)[position as int].operations.len(),
                    forall|j: int|
                        0 <= j < heads@.len() ==> (#[trigger] heads@[j]).0@ == outside_pallets(
                            *m,
                        )[position as int].operations[j].name && heads@[j].1 == outside_pallets(
                            *m,
                        )[position as int].operations[j].index,
                    i <= heads.len(),
                    calls@.len() == i,
                    forall|j: int|
                        0 <= j < i ==> (#[trigger] calls@[j])@ == outside_pallets(
                            *m,
                        )[position as int].operations[j],
                decreases heads.len() - i,
            {
                let fields = call_fields(m, position, i);
                let call = CallVariant { name: heads[i].0.clone(), index: heads[i].1, fields };
                assert(call@ =~~= outside_pallets(*m)[position as int].operations[i as int]);
                calls.push(call);
                i += 1;
            }
        },
    }
    assert(views(calls@) =~= outside_pallets(*m)[position as int].operations);
    calls
}

/// The pallets, copied out of the decoded value.
fn read_pallets(m: &subxt_metadata::Metadata) -> (pallets: Vec<Pallet>)
    ensures
        views(pallets@) == outside_pallets(*m),
{
    let heads = pallet_heads(m);
    let mut pallets: Vec<Pallet> = Vec::new();
    let mut i: usize = 0;
    while i < heads.len()
        invariant
            heads@.len() == outside_pallets(*m).len(),
            forall|j: int|
                0 <= j < heads@.len() ==> (#[trigger] heads@[j]).0@ == outside_pallets(*m)[j].name
                    && heads@[j].1 == outside_pallets(*m)[j].index,
            i <= heads.len(),
            pallets@.len() == i,
            forall|j: int| 0 <= j < i ==> (#[trigger] pallets@[j])@ == outside_pallets(*m)[j],
        decreases heads.len() - i,
    {
        let operations = read_calls(m, i);
        let pallet = Pallet { name: heads[i].0.clone(), index: heads[i].1, operations };
        assert(pallet@ =~~= outside_pallets(*m)[i as int]);
        pallets.push(pallet);
        i += 1;
    }
    assert(views(pallets@) =~= outside_pallets(*m));
    pallets
}

/// The id that the first variant type named `name` declares.
pub fn find_outer_enum(heads: &Vec<TypeHead>, name: &str) -> (found: Option<u32>)
    ensures
        found == outer_enum(views(heads@), name@),
{
    let ghost all = views(heads@);
    let ghost wanted = |h: TypeHeadView| is_outer_enum(h, name@);
    let target = String::from_str(name);
    let mut i: usize = 0;
    while i < heads.len()
        invariant
            i <= heads.len(),
            all == views(heads@),
            target@ == name@,
            wanted == |h: TypeHeadView| is_outer_enum(h, name@),
            forall|j: int| 0 <= j < i ==> !is_outer_enum(#[trigger] all[j], name@),
        decreases heads.len() - i,
    {
        let head = &heads[i];
        assert(all[i as int] == head@);
        let named = match &head.ident {
            Some(ident) => *ident == target,
            None => false,
        };
        if head.is_variant && named {
            proof {
                assert(is_outer_enum(all[i as int], name@));
                assert(wanted(all[i as int]));
                assert(is_first_such(all, wanted, i as int));
                lemma_first_such(all, wanted, i as int);
            }
            return Some(head.declared_id);
        }
        i += 1;
    }
    None
}

/// Tells whether the converter would index the type table of a version-14
/// blob outside its bounds, and with which id.
pub fn dangling_outer_enum(heads: &Vec<TypeHead>) -> (found: Option<u32>)
    ensures
        found == dangling_call_enum(views(heads@)),
{
    let call = find_outer_enum(heads, "RuntimeCall");
    let event = find_outer_enum(heads, "RuntimeEvent");
    let error = find_outer_enum(heads, "RuntimeError");
    match (call, event, error) {
        (Some(id), Some(_), None) => {
            if id as usize >= heads.len() {
                Some(id)
            } else {
                None
            }
        },
        _ => None,
    }
}

/// Decodes a schema. The bytes are read as a prefixed metadata blob and the
/// blob is converted; blobs of the versions 14, 15 and 16 can be. There is
/// an error, and no schema,
/// - where the bytes are no such blob;
/// - where a blob of version 14 has no outer error enum and declares for its
///   outer call enum an id outside its type table;
/// - where the converter refuses the blob: it is of another version, or it
///   is of version 14 and lacks a type that the converter needs (the outer
///   call or event enum, the extrinsic type, or the address or signature
///   parameter of that type).
pub fn decode(bytes: &[u8]) -> (r: Result<Schema, DecodeError>)
    ensures
        match r {
            Ok(schema) => decoded_schema(bytes@) == Ok::<SchemaView, DecodeErrorView>(schema@),
            Err(error) => decoded_schema(bytes@) == Err::<SchemaView, DecodeErrorView>(error@),
        },
{
    match decode_blob(bytes) {
        Err(error) => Err(DecodeError::Malformed { description: describe_codec_error(&error) }),
        Ok(blob) => {
            let heads = type_heads(&blob);
            match dangling_outer_enum(&heads) {
                Some(declared_id) => Err(DecodeError::DanglingOuterEnum { declared_id }),
                None => {
                    match convert_blob(blob) {
                        Err(error) => Err(
                            DecodeError::Unsupported {
                                description: describe_conversion_error(&error),
                            },
                        ),
                        Ok(raw) => {
                            let pallets = read_pallets(&raw);
                            let types = type_descriptors(&raw);
                            Ok(Schema { pallets, registry: TypeRegistry { types } })
                        },
                    }
                },
            }
        },
    }
}

} // verus!
