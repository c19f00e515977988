use frame_metadata::v15::{
    CustomMetadata, ExtrinsicMetadata, OuterEnums, PalletCallMetadata, PalletMetadata,
    RuntimeMetadataV15,
};
use frame_metadata::v14::RuntimeMetadataV14;
use frame_metadata::{RuntimeMetadata, RuntimeMetadataPrefixed, META_RESERVED};
use parity_scale_codec::{Compact, Decode, Encode};
use runtime_call_model::{
    decode, generate, CallVariant, DecodeError, DuplicateDiscriminantError, EnumDef, Field,
    FieldDef, GenerateError, Pallet, Payload, Schema, SchemaIntegrityError, Stage,
    TypeDefinitionTree, TypeDescriptor, TypeRegistry, VariantDef,
};
use scale_info::form::PortableForm;
use scale_info::{
    Path, PortableRegistry, PortableType, Type, TypeDef, TypeDefComposite, TypeDefPrimitive,
    TypeDefTuple, TypeDefVariant, TypeParameter, Variant,
};

fn portable(id: u32, segments: &[&str], type_def: TypeDef<PortableForm>) -> PortableType {
    PortableType {
        id,
        ty: Type {
            path: Path::from_segments_unchecked(segments.iter().map(|s| s.to_string())),
            type_params: vec![],
            type_def,
            docs: vec![],
        },
    }
}

fn named_type(id: u32, segments: &[&str]) -> PortableType {
    portable(id, segments, TypeDef::Composite(TypeDefComposite { fields: vec![] }))
}

fn primitive_type(id: u32) -> PortableType {
    portable(id, &[], TypeDef::Primitive(TypeDefPrimitive::U32))
}

fn tuple_type(id: u32) -> PortableType {
    portable(id, &[], TypeDef::Tuple(TypeDefTuple { fields: vec![] }))
}

fn call_type(id: u32, segments: &[&str], variants: Vec<Variant<PortableForm>>) -> PortableType {
    portable(id, segments, TypeDef::Variant(TypeDefVariant { variants }))
}

/// A field with the given name and type id, and nothing else: its encoding
/// is written out and read back.
fn outside_field(name: Option<&str>, id: u32) -> scale_info::Field<PortableForm> {
    let name = name.map(String::from);
    let bytes = (name, Compact(id), None::<String>, Vec::<String>::new()).encode();
    Decode::decode(&mut &bytes[..]).unwrap()
}

fn variant(name: &str, index: u8, fields: Vec<(Option<&str>, u32)>) -> Variant<PortableForm> {
    Variant {
        name: name.to_string(),
        fields: fields.into_iter().map(|(name, id)| outside_field(name, id)).collect(),
        index,
        docs: vec![],
    }
}

fn outside_pallet(name: &str, index: u8, calls: Option<u32>) -> PalletMetadata<PortableForm> {
    PalletMetadata {
        name: name.to_string(),
        storage: None,
        calls: calls.map(|id| PalletCallMetadata { ty: id.into() }),
        event: None,
        constants: vec![],
        error: None,
        index,
        docs: vec![],
    }
}

fn blob(types: Vec<PortableType>, pallets: Vec<PalletMetadata<PortableForm>>) -> Vec<u8> {
    let metadata = RuntimeMetadataV15 {
        types: PortableRegistry { types },
        pallets,
        extrinsic: ExtrinsicMetadata {
            version: 4,
            address_ty: 0.into(),
            call_ty: 0.into(),
            signature_ty: 0.into(),
            extra_ty: 0.into(),
            signed_extensions: vec![],
        },
        ty: 0.into(),
        apis: vec![],
        outer_enums: OuterEnums {
            call_enum_ty: 0.into(),
            event_enum_ty: 0.into(),
            error_enum_ty: 0.into(),
        },
        custom: CustomMetadata { map: Default::default() },
    };
    RuntimeMetadataPrefixed(META_RESERVED, RuntimeMetadata::V15(metadata)).encode()
}

/// The extrinsic type of a version-14 blob, with the two parameters that the
/// converter looks for.
fn extrinsic_type(id: u32, address: u32, signature: u32) -> PortableType {
    let mut extrinsic = named_type(id, &["sp_runtime", "UncheckedExtrinsic"]);
    extrinsic.ty.type_params = vec![
        TypeParameter { name: "Address".to_string(), ty: Some(address.into()) },
        TypeParameter { name: "Signature".to_string(), ty: Some(signature.into()) },
    ];
    extrinsic
}

fn outside_pallet_v14(
    name: &str,
    index: u8,
    calls: Option<u32>,
) -> frame_metadata::v14::PalletMetadata<PortableForm> {
    frame_metadata::v14::PalletMetadata {
        name: name.to_string(),
        storage: None,
        calls: calls.map(|id| PalletCallMetadata { ty: id.into() }),
        event: None,
        constants: vec![],
        error: None,
        index,
    }
}

fn blob_v14(
    types: Vec<PortableType>,
    pallets: Vec<frame_metadata::v14::PalletMetadata<PortableForm>>,
    extrinsic: u32,
) -> Vec<u8> {
    let metadata = RuntimeMetadataV14 {
        types: PortableRegistry { types },
        pallets,
        extrinsic: frame_metadata::v14::ExtrinsicMetadata {
            ty: extrinsic.into(),
            version: 4,
            signed_extensions: vec![],
        },
        ty: 0.into(),
    };
    RuntimeMetadataPrefixed(META_RESERVED, RuntimeMetadata::V14(metadata)).encode()
}

/// Pallet `A` with index 1 and the call `foo { x: u32 }`, listed before
/// pallet `B` with index 0 and the call `bar`.
fn two_pallets() -> Vec<u8> {
    blob(
        vec![
            named_type(0, &["primitives", "u32"]),
            call_type(1, &["pallet_a", "Call"], vec![variant("foo", 0, vec![(Some("x"), 0)])]),
            call_type(2, &["pallet_b", "Call"], vec![variant("bar", 0, vec![])]),
        ],
        vec![outside_pallet("A", 1, Some(1)), outside_pallet("B", 0, Some(2))],
    )
}

fn descriptor(ident: Option<&str>) -> TypeDescriptor {
    TypeDescriptor { ident: ident.map(String::from) }
}

#[test]
fn decode_copies_pallets_calls_fields_and_types() {
    let bytes = blob(
        vec![
            primitive_type(0),
            named_type(1, &["sp_runtime", "MultiAddress"]),
            tuple_type(2),
            call_type(
                3,
                &["pallet_balances", "pallet", "Call"],
                vec![
                    variant("transfer", 7, vec![(Some("dest"), 1), (Some("value"), 0)]),
                    variant("burn", 2, vec![(None, 2)]),
                ],
            ),
            call_type(4, &["pallet_system", "Call"], vec![]),
        ],
        vec![
            outside_pallet("Balances", 10, Some(3)),
            outside_pallet("System", 0, Some(4)),
            outside_pallet("Timestamp", 3, None),
        ],
    );
    let expected = Schema {
        pallets: vec![
            Pallet {
                name: "Balances".to_string(),
                index: 10,
                operations: vec![
                    CallVariant {
                        name: "transfer".to_string(),
                        index: 7,
                        fields: vec![
                            Field { name: Some("dest".to_string()), type_ref: 1 },
                            Field { name: Some("value".to_string()), type_ref: 0 },
                        ],
                    },
                    CallVariant {
                        name: "burn".to_string(),
                        index: 2,
                        fields: vec![Field { name: None, type_ref: 2 }],
                    },
                ],
            },
            Pallet { name: "System".to_string(), index: 0, operations: vec![] },
            Pallet { name: "Timestamp".to_string(), index: 3, operations: vec![] },
        ],
        registry: TypeRegistry {
            types: vec![
                descriptor(None),
                descriptor(Some("MultiAddress")),
                descriptor(None),
                descriptor(Some("Call")),
                descriptor(Some("Call")),
            ],
        },
    };
    assert_eq!(decode(&bytes), Ok(expected));
}

#[test]
fn decode_treats_a_call_type_that_is_no_enum_as_no_calls() {
    let bytes = blob(vec![primitive_type(0)], vec![outside_pallet("Odd", 1, Some(0))]);
    let schema = decode(&bytes).unwrap();
    assert_eq!(schema.pallets.len(), 1);
    assert!(schema.pallets[0].operations.is_empty());
}

#[test]
fn generate_orders_pallets_of_a_blob() {
    let tree = generate(&two_pallets(), "runtime").unwrap();
    let expected = TypeDefinitionTree {
        module_name: "runtime".to_string(),
        runtime_call: EnumDef {
            name: "RuntimeCall".to_string(),
            variants: vec![
                VariantDef {
                    name: "B".to_string(),
                    discriminant: 0,
                    payload: Payload::Opaque("BCall".to_string()),
                },
                VariantDef {
                    name: "A".to_string(),
                    discriminant: 1,
                    payload: Payload::Opaque("ACall".to_string()),
                },
            ],
        },
        pallet_calls: vec![
            EnumDef {
                name: "BCall".to_string(),
                variants: vec![VariantDef {
                    name: "bar".to_string(),
                    discriminant: 0,
                    payload: Payload::Fields(vec![]),
                }],
            },
            EnumDef {
                name: "ACall".to_string(),
                variants: vec![VariantDef {
                    name: "foo".to_string(),
                    discriminant: 0,
                    payload: Payload::Fields(vec![FieldDef {
                        name: "x".to_string(),
                        resolved_type: "u32".to_string(),
                    }]),
                }],
            },
        ],
    };
    assert_eq!(tree, expected);
}

#[test]
fn generate_is_repeatable_on_the_same_bytes() {
    let bytes = two_pallets();
    let first = generate(&bytes, "runtime");
    let second = generate(&bytes, "runtime");
    assert!(first.is_ok());
    assert_eq!(first, second);
}

#[test]
fn tuple_typed_field_of_a_blob_falls_back() {
    let bytes = blob(
        vec![
            tuple_type(0),
            primitive_type(1),
            call_type(
                2,
                &["pallet_x", "Call"],
                vec![variant("go", 3, vec![(Some("pair"), 0), (Some("count"), 1)])],
            ),
        ],
        vec![outside_pallet("X", 8, Some(2))],
    );
    let tree = generate(&bytes, "runtime").unwrap();
    assert_eq!(
        tree.pallet_calls[0].variants[0].payload,
        Payload::Fields(vec![
            FieldDef { name: "pair".to_string(), resolved_type: "u8".to_string() },
            FieldDef { name: "count".to_string(), resolved_type: "u8".to_string() },
        ])
    );
}

#[test]
fn blob_without_pallets_gives_empty_union() {
    let tree = generate(&blob(vec![primitive_type(0)], vec![]), "runtime").unwrap();
    assert_eq!(tree.runtime_call.name, "RuntimeCall");
    assert!(tree.runtime_call.variants.is_empty());
    assert!(tree.pallet_calls.is_empty());
}

#[test]
fn blob_with_duplicate_pallet_indices_is_rejected() {
    let bytes = blob(
        vec![primitive_type(0)],
        vec![outside_pallet("A", 4, None), outside_pallet("B", 4, None)],
    );
    assert_eq!(
        generate(&bytes, "runtime"),
        Err(GenerateError::DuplicateDiscriminant(DuplicateDiscriminantError {
            union_name: "RuntimeCall".to_string(),
            discriminant: 4,
            first: "A".to_string(),
            second: "B".to_string(),
        }))
    );
}

#[test]
fn blob_with_unnamed_field_is_rejected() {
    let bytes = blob(
        vec![
            primitive_type(0),
            call_type(1, &["pallet_x", "Call"], vec![variant("go", 0, vec![(None, 0)])]),
        ],
        vec![outside_pallet("X", 0, Some(1))],
    );
    assert_eq!(
        generate(&bytes, "runtime"),
        Err(GenerateError::SchemaIntegrity(SchemaIntegrityError::MissingFieldName {
            pallet: "X".to_string(),
            operation: "go".to_string(),
            position: 0,
        }))
    );
}

#[test]
fn blob_with_dangling_type_id_is_rejected() {
    let bytes = blob(
        vec![
            primitive_type(0),
            call_type(1, &["pallet_x", "Call"], vec![variant("go", 0, vec![(Some("v"), 9)])]),
        ],
        vec![outside_pallet("X", 0, Some(1))],
    );
    assert_eq!(
        generate(&bytes, "runtime"),
        Err(GenerateError::SchemaIntegrity(SchemaIntegrityError::UnknownType {
            pallet: "X".to_string(),
            operation: "go".to_string(),
            field: "v".to_string(),
            type_ref: 9,
        }))
    );
}

#[test]
fn empty_bytes_do_not_decode() {
    let outcome = generate(&[], "runtime");
    match &outcome {
        Err(GenerateError::Decode(DecodeError::Malformed { description })) => {
            assert!(!description.is_empty())
        }
        other => panic!("{:?}", other),
    }
    assert_eq!(outcome.unwrap_err().stage(), Stage::Decode);
}

#[test]
fn version_14_blob_with_dangling_call_enum_is_rejected() {
    let bytes = blob_v14(
        vec![
            call_type(7, &["runtime", "RuntimeCall"], vec![]),
            call_type(8, &["runtime", "RuntimeEvent"], vec![]),
        ],
        vec![],
        0,
    );
    assert_eq!(decode(&bytes), Err(DecodeError::DanglingOuterEnum { declared_id: 7 }));
    assert_eq!(
        generate(&bytes, "runtime"),
        Err(GenerateError::Decode(DecodeError::DanglingOuterEnum { declared_id: 7 }))
    );
}

#[test]
fn version_14_blob_with_call_enum_at_the_table_end_is_rejected() {
    let bytes = blob_v14(
        vec![
            call_type(0, &["runtime", "RuntimeEvent"], vec![]),
            named_type(1, &["runtime", "RuntimeCall"]),
            call_type(3, &["runtime", "RuntimeCall"], vec![]),
        ],
        vec![],
        0,
    );
    assert_eq!(decode(&bytes), Err(DecodeError::DanglingOuterEnum { declared_id: 3 }));
}

#[test]
fn version_14_blob_is_converted() {
    let bytes = blob_v14(
        vec![
            call_type(0, &["runtime", "RuntimeCall"], vec![]),
            call_type(1, &["runtime", "RuntimeEvent"], vec![]),
            extrinsic_type(2, 0, 1),
            call_type(3, &["pallet_x", "Call"], vec![variant("go", 5, vec![(Some("v"), 2)])]),
        ],
        vec![outside_pallet_v14("X", 9, Some(3))],
        2,
    );
    let expected = Schema {
        pallets: vec![Pallet {
            name: "X".to_string(),
            index: 9,
            operations: vec![CallVariant {
                name: "go".to_string(),
                index: 5,
                fields: vec![Field { name: Some("v".to_string()), type_ref: 2 }],
            }],
        }],
        registry: TypeRegistry {
            types: vec![
                descriptor(Some("RuntimeCall")),
                descriptor(Some("RuntimeEvent")),
                descriptor(Some("UncheckedExtrinsic")),
                descriptor(Some("Call")),
                descriptor(Some("RuntimeError")),
            ],
        },
    };
    assert_eq!(decode(&bytes), Ok(expected));
}

#[test]
fn version_14_blob_with_misnumbered_types_is_converted() {
    let bytes = blob_v14(
        vec![
            call_type(2, &["runtime", "RuntimeCall"], vec![]),
            call_type(40, &["runtime", "RuntimeEvent"], vec![]),
            extrinsic_type(0, 0, 1),
        ],
        vec![],
        2,
    );
    let schema = decode(&bytes).unwrap();
    assert!(schema.pallets.is_empty());
    assert_eq!(schema.registry.types.len(), 4);
    assert_eq!(schema.registry.types[2], descriptor(Some("UncheckedExtrinsic")));
    assert_eq!(schema.registry.types[3], descriptor(Some("RuntimeError")));
}

#[test]
fn version_14_blob_with_an_error_enum_is_not_indexed() {
    let bytes = blob_v14(
        vec![
            call_type(70, &["runtime", "RuntimeCall"], vec![]),
            call_type(80, &["runtime", "RuntimeEvent"], vec![]),
            call_type(90, &["runtime", "RuntimeError"], vec![]),
            extrinsic_type(3, 0, 1),
        ],
        vec![],
        3,
    );
    let schema = decode(&bytes).unwrap();
    assert_eq!(schema.registry.types.len(), 4);
}

#[test]
fn version_14_blob_without_outer_enums_is_unsupported() {
    let no_call = blob_v14(vec![call_type(0, &["runtime", "RuntimeEvent"], vec![])], vec![], 0);
    assert_eq!(
        decode(&no_call),
        Err(DecodeError::Unsupported {
            description: "Type name RuntimeCall is expected but not found in the type registry"
                .to_string(),
        })
    );
    let no_event = blob_v14(vec![call_type(9, &["runtime", "RuntimeCall"], vec![])], vec![], 0);
    assert_eq!(
        decode(&no_event),
        Err(DecodeError::Unsupported {
            description: "Type name RuntimeEvent is expected but not found in the type registry"
                .to_string(),
        })
    );
}

#[test]
fn version_14_blob_without_extrinsic_parameters_is_unsupported() {
    let bytes = blob_v14(
        vec![
            call_type(0, &["runtime", "RuntimeCall"], vec![]),
            call_type(1, &["runtime", "RuntimeEvent"], vec![]),
            named_type(2, &["sp_runtime", "UncheckedExtrinsic"]),
        ],
        vec![],
        2,
    );
    assert_eq!(
        decode(&bytes),
        Err(DecodeError::Unsupported {
            description: "Type name Address is expected but not found in the type registry"
                .to_string(),
        })
    );
}

#[test]
fn blob_of_an_old_version_is_unsupported() {
    assert_eq!(
        decode(&[0x6d, 0x65, 0x74, 0x61, 13, 0]),
        Err(DecodeError::Unsupported {
            description: "Cannot convert v13 metadata into Metadata type".to_string(),
        })
    );
}

#[test]
fn truncated_blob_does_not_decode() {
    let bytes = two_pallets();
    assert!(matches!(decode(&bytes[..bytes.len() - 1]), Err(DecodeError::Malformed { .. })));
    assert!(matches!(decode(&bytes[..5]), Err(DecodeError::Malformed { .. })));
}

#[test]
fn wrong_prefix_or_version_does_not_decode() {
    assert!(matches!(decode(b"not a schema at all"), Err(DecodeError::Malformed { .. })));
    assert!(matches!(decode(&[0x6d, 0x65, 0x74, 0x61, 13]), Err(DecodeError::Malformed { .. })));
    assert!(matches!(
        decode(&[0x6d, 0x65, 0x74, 0x61, 99, 0, 0, 0, 0]),
        Err(DecodeError::Malformed { .. })
    ));
}
