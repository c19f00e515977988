use runtime_call_model::{
    assemble, build, dangling_outer_enum, find_outer_enum, generate_from_schema, resolve_schema,
    validate, BuildError, CallVariant, TypeHead,
    DuplicateDiscriminantError, EnumDef, Field, FieldDef, GenerateError,
    IdentifierCollisionError, NormalizedSchema, Pallet, Payload, ResolvedCall, ResolvedField,
    ResolvedPallet, Schema, SchemaIntegrityError, Stage, TypeDefinitionTree, TypeDescriptor,
    TypeRegistry, VariantDef,
};

fn descriptor(ident: Option<&str>) -> TypeDescriptor {
    TypeDescriptor { ident: ident.map(String::from) }
}

fn field(name: &str, type_ref: u32) -> Field {
    Field { name: Some(name.to_string()), type_ref }
}

fn call(name: &str, index: u8, fields: Vec<Field>) -> CallVariant {
    CallVariant { name: name.to_string(), index, fields }
}

fn pallet(name: &str, index: u8, operations: Vec<CallVariant>) -> Pallet {
    Pallet { name: name.to_string(), index, operations }
}

fn schema(pallets: Vec<Pallet>, types: Vec<TypeDescriptor>) -> Schema {
    Schema { pallets, registry: TypeRegistry { types } }
}

fn pallet_variant(name: &str, discriminant: u8) -> VariantDef {
    VariantDef {
        name: name.to_string(),
        discriminant,
        payload: Payload::Opaque(format!("{}Call", name)),
    }
}

fn call_variant(name: &str, discriminant: u8, fields: Vec<(&str, &str)>) -> VariantDef {
    VariantDef {
        name: name.to_string(),
        discriminant,
        payload: Payload::Fields(
            fields
                .into_iter()
                .map(|(name, ty)| FieldDef {
                    name: name.to_string(),
                    resolved_type: ty.to_string(),
                })
                .collect(),
        ),
    }
}

fn two_pallets() -> Schema {
    schema(
        vec![
            pallet("A", 1, vec![call("foo", 0, vec![field("x", 0)])]),
            pallet("B", 0, vec![call("bar", 0, vec![])]),
        ],
        vec![descriptor(Some("u32"))],
    )
}

#[test]
fn pallets_are_emitted_by_ascending_index() {
    let tree = generate_from_schema(&two_pallets(), "runtime").unwrap();
    let expected = TypeDefinitionTree {
        module_name: "runtime".to_string(),
        runtime_call: EnumDef {
            name: "RuntimeCall".to_string(),
            variants: vec![pallet_variant("B", 0), pallet_variant("A", 1)],
        },
        pallet_calls: vec![
            EnumDef { name: "BCall".to_string(), variants: vec![call_variant("bar", 0, vec![])] },
            EnumDef {
                name: "ACall".to_string(),
                variants: vec![call_variant("foo", 0, vec![("x", "u32")])],
            },
        ],
    };
    assert_eq!(tree, expected);
}

#[test]
fn unnamed_type_falls_back_to_one_byte() {
    let input = schema(
        vec![pallet(
            "Balances",
            5,
            vec![call("transfer", 0, vec![field("dest", 1), field("value", 0)])],
        )],
        vec![descriptor(Some("Balance")), descriptor(None)],
    );
    let tree = generate_from_schema(&input, "runtime").unwrap();
    assert_eq!(
        tree.pallet_calls[0].variants,
        vec![call_variant("transfer", 0, vec![("dest", "u8"), ("value", "Balance")])]
    );
}

#[test]
fn empty_schema_gives_empty_union() {
    let tree = generate_from_schema(&schema(vec![], vec![]), "runtime").unwrap();
    assert_eq!(tree.module_name, "runtime");
    assert_eq!(tree.runtime_call.name, "RuntimeCall");
    assert!(tree.runtime_call.variants.is_empty());
    assert!(tree.pallet_calls.is_empty());
}

#[test]
fn duplicate_pallet_indices_are_rejected() {
    let input = schema(
        vec![
            pallet("System", 0, vec![]),
            pallet("Balances", 3, vec![]),
            pallet("Staking", 3, vec![]),
        ],
        vec![],
    );
    let outcome = generate_from_schema(&input, "runtime");
    assert_eq!(
        outcome,
        Err(GenerateError::DuplicateDiscriminant(DuplicateDiscriminantError {
            union_name: "RuntimeCall".to_string(),
            discriminant: 3,
            first: "Balances".to_string(),
            second: "Staking".to_string(),
        }))
    );
}

#[test]
fn duplicate_call_indices_are_rejected() {
    let input = schema(
        vec![
            pallet("System", 0, vec![call("remark", 0, vec![])]),
            pallet(
                "Balances",
                1,
                vec![call("transfer", 7, vec![]), call("burn", 2, vec![]), call("mint", 7, vec![])],
            ),
        ],
        vec![],
    );
    let outcome = generate_from_schema(&input, "runtime");
    assert_eq!(
        outcome,
        Err(GenerateError::DuplicateDiscriminant(DuplicateDiscriminantError {
            union_name: "BalancesCall".to_string(),
            discriminant: 7,
            first: "transfer".to_string(),
            second: "mint".to_string(),
        }))
    );
}

#[test]
fn same_call_index_in_two_pallets_is_accepted() {
    let tree = generate_from_schema(&two_pallets(), "runtime").unwrap();
    assert_eq!(tree.pallet_calls[0].variants[0].discriminant, 0);
    assert_eq!(tree.pallet_calls[1].variants[0].discriminant, 0);
}

#[test]
fn generation_is_repeatable() {
    let first = generate_from_schema(&two_pallets(), "runtime");
    let second = generate_from_schema(&two_pallets(), "runtime");
    assert!(first.is_ok());
    assert_eq!(first, second);
}

#[test]
fn listing_order_of_pallets_does_not_matter() {
    let mut reversed = two_pallets();
    reversed.pallets.reverse();
    assert_eq!(
        generate_from_schema(&two_pallets(), "runtime"),
        generate_from_schema(&reversed, "runtime")
    );
}

#[test]
fn variants_ascend_over_many_pallets() {
    let indices: [u8; 7] = [200, 3, 255, 0, 17, 4, 128];
    let pallets = indices.iter().map(|i| pallet(&format!("P{}", i), *i, vec![])).collect();
    let tree = generate_from_schema(&schema(pallets, vec![]), "runtime").unwrap();
    let emitted: Vec<u8> = tree.runtime_call.variants.iter().map(|v| v.discriminant).collect();
    assert_eq!(emitted, vec![0, 3, 4, 17, 128, 200, 255]);
    let names: Vec<&str> = tree.pallet_calls.iter().map(|u| u.name.as_str()).collect();
    assert_eq!(
        names,
        vec!["P0Call", "P3Call", "P4Call", "P17Call", "P128Call", "P200Call", "P255Call"]
    );
}

#[test]
fn calls_keep_the_order_of_the_schema() {
    let input = schema(
        vec![pallet(
            "Staking",
            9,
            vec![call("bond", 4, vec![]), call("unbond", 1, vec![]), call("nominate", 3, vec![])],
        )],
        vec![],
    );
    let tree = generate_from_schema(&input, "runtime").unwrap();
    assert_eq!(
        tree.pallet_calls[0].variants,
        vec![
            call_variant("bond", 4, vec![]),
            call_variant("unbond", 1, vec![]),
            call_variant("nominate", 3, vec![]),
        ]
    );
}

#[test]
fn field_without_name_is_an_integrity_error() {
    let input = schema(
        vec![
            pallet("Late", 9, vec![call("skipped", 0, vec![Field { name: None, type_ref: 0 }])]),
            pallet(
                "Early",
                2,
                vec![
                    call("fine", 0, vec![field("a", 0)]),
                    call("broken", 1, vec![field("a", 0), Field { name: None, type_ref: 44 }]),
                ],
            ),
        ],
        vec![descriptor(Some("u32"))],
    );
    let outcome = generate_from_schema(&input, "runtime");
    assert_eq!(
        outcome,
        Err(GenerateError::SchemaIntegrity(SchemaIntegrityError::MissingFieldName {
            pallet: "Early".to_string(),
            operation: "broken".to_string(),
            position: 1,
        }))
    );
}

#[test]
fn unknown_type_is_an_integrity_error() {
    let input = schema(
        vec![pallet("System", 0, vec![call("remark", 0, vec![field("a", 0), field("b", 1)])])],
        vec![descriptor(None)],
    );
    let outcome = resolve_schema(&input);
    assert_eq!(
        outcome,
        Err(SchemaIntegrityError::UnknownType {
            pallet: "System".to_string(),
            operation: "remark".to_string(),
            field: "b".to_string(),
            type_ref: 1,
        })
    );
}

#[test]
fn integrity_error_comes_before_duplicates() {
    let input = schema(
        vec![
            pallet("A", 1, vec![]),
            pallet("B", 1, vec![call("c", 0, vec![field("x", 3)])]),
        ],
        vec![],
    );
    let outcome = generate_from_schema(&input, "runtime");
    assert!(matches!(
        outcome,
        Err(GenerateError::SchemaIntegrity(SchemaIntegrityError::UnknownType { .. }))
    ));
}

#[test]
fn pallets_of_one_name_collide() {
    let input = schema(vec![pallet("Twin", 4, vec![]), pallet("Twin", 2, vec![])], vec![]);
    let outcome = generate_from_schema(&input, "runtime");
    assert_eq!(
        outcome,
        Err(GenerateError::IdentifierCollision(IdentifierCollisionError {
            identifier: "TwinCall".to_string(),
        }))
    );
}

#[test]
fn pallet_named_runtime_collides_with_the_outer_union() {
    let input = schema(vec![pallet("System", 0, vec![]), pallet("Runtime", 1, vec![])], vec![]);
    let outcome = generate_from_schema(&input, "runtime");
    assert_eq!(
        outcome,
        Err(GenerateError::IdentifierCollision(IdentifierCollisionError {
            identifier: "RuntimeCall".to_string(),
        }))
    );
}

#[test]
fn duplicate_discriminant_comes_before_collision() {
    let input = schema(
        vec![
            pallet("Twin", 4, vec![]),
            pallet("Twin", 2, vec![call("a", 1, vec![]), call("b", 1, vec![])]),
        ],
        vec![],
    );
    let outcome = generate_from_schema(&input, "runtime");
    assert_eq!(
        outcome,
        Err(GenerateError::DuplicateDiscriminant(DuplicateDiscriminantError {
            union_name: "TwinCall".to_string(),
            discriminant: 1,
            first: "a".to_string(),
            second: "b".to_string(),
        }))
    );
}

#[test]
fn resolve_keeps_schema_order_among_equal_indices() {
    let input = schema(
        vec![
            pallet("C", 7, vec![]),
            pallet("A", 7, vec![]),
            pallet("Z", 1, vec![]),
            pallet("B", 7, vec![]),
        ],
        vec![],
    );
    let resolved = resolve_schema(&input).unwrap();
    let names: Vec<&str> = resolved.pallets.iter().map(|p| p.name.as_str()).collect();
    assert_eq!(names, vec!["Z", "C", "A", "B"]);
}

#[test]
fn resolve_pairs_fields_with_type_names() {
    let resolved = resolve_schema(&two_pallets()).unwrap();
    let expected = NormalizedSchema {
        pallets: vec![
            ResolvedPallet {
                name: "B".to_string(),
                index: 0,
                operations: vec![ResolvedCall {
                    name: "bar".to_string(),
                    index: 0,
                    fields: vec![],
                }],
            },
            ResolvedPallet {
                name: "A".to_string(),
                index: 1,
                operations: vec![ResolvedCall {
                    name: "foo".to_string(),
                    index: 0,
                    fields: vec![ResolvedField {
                        name: "x".to_string(),
                        resolved_type: "u32".to_string(),
                    }],
                }],
            },
        ],
    };
    assert_eq!(resolved, expected);
}

#[test]
fn registry_resolves_by_position() {
    let registry = TypeRegistry { types: vec![descriptor(Some("a")), descriptor(None)] };
    assert_eq!(registry.resolve(0), Some(&descriptor(Some("a"))));
    assert_eq!(registry.resolve(1), Some(&descriptor(None)));
    assert_eq!(registry.resolve(2), None);
    assert_eq!(registry.resolve(u32::MAX), None);
}

#[test]
fn build_takes_pallets_as_they_stand() {
    let resolved = NormalizedSchema {
        pallets: vec![
            ResolvedPallet { name: "Late".to_string(), index: 9, operations: vec![] },
            ResolvedPallet { name: "Early".to_string(), index: 2, operations: vec![] },
        ],
    };
    let tree = build(&resolved, "m").unwrap();
    assert_eq!(
        tree.runtime_call.variants,
        vec![pallet_variant("Late", 9), pallet_variant("Early", 2)]
    );
    assert_eq!(tree, assemble(&resolved, "m"));
}

#[test]
fn validate_reports_the_first_clashing_union() {
    let tree = TypeDefinitionTree {
        module_name: "m".to_string(),
        runtime_call: EnumDef {
            name: "RuntimeCall".to_string(),
            variants: vec![pallet_variant("A", 0), pallet_variant("B", 1)],
        },
        pallet_calls: vec![
            EnumDef { name: "ACall".to_string(), variants: vec![call_variant("x", 0, vec![])] },
            EnumDef {
                name: "BCall".to_string(),
                variants: vec![
                    call_variant("p", 5, vec![]),
                    call_variant("q", 6, vec![]),
                    call_variant("r", 6, vec![]),
                    call_variant("s", 5, vec![]),
                ],
            },
        ],
    };
    assert_eq!(
        validate(&tree),
        Err(BuildError::DuplicateDiscriminant(DuplicateDiscriminantError {
            union_name: "BCall".to_string(),
            discriminant: 6,
            first: "q".to_string(),
            second: "r".to_string(),
        }))
    );
}

#[test]
fn validate_accepts_a_well_formed_tree() {
    let tree = generate_from_schema(&two_pallets(), "runtime").unwrap();
    assert_eq!(validate(&tree), Ok(()));
}

#[test]
fn errors_name_their_stage() {
    let duplicate = schema(vec![pallet("A", 1, vec![]), pallet("B", 1, vec![])], vec![]);
    let collision = schema(vec![pallet("A", 1, vec![]), pallet("A", 2, vec![])], vec![]);
    let unsound = schema(vec![pallet("A", 1, vec![call("c", 0, vec![field("x", 0)])])], vec![]);
    assert_eq!(generate_from_schema(&duplicate, "m").unwrap_err().stage(), Stage::Build);
    assert_eq!(generate_from_schema(&collision, "m").unwrap_err().stage(), Stage::Build);
    assert_eq!(generate_from_schema(&unsound, "m").unwrap_err().stage(), Stage::Resolve);
}

#[test]
fn build_reports_a_collision_of_union_names() {
    let resolved = NormalizedSchema {
        pallets: vec![
            ResolvedPallet { name: "Twin".to_string(), index: 1, operations: vec![] },
            ResolvedPallet { name: "Other".to_string(), index: 2, operations: vec![] },
            ResolvedPallet { name: "Twin".to_string(), index: 3, operations: vec![] },
        ],
    };
    assert_eq!(
        build(&resolved, "m"),
        Err(BuildError::IdentifierCollision(IdentifierCollisionError {
            identifier: "TwinCall".to_string(),
        }))
    );
}

#[test]
fn validate_reports_the_first_repeated_union_name() {
    let union = |name: &str| EnumDef { name: name.to_string(), variants: vec![] };
    let tree = TypeDefinitionTree {
        module_name: "m".to_string(),
        runtime_call: union("Outer"),
        pallet_calls: vec![union("A"), union("B"), union("A"), union("Outer")],
    };
    assert_eq!(
        validate(&tree),
        Err(BuildError::IdentifierCollision(IdentifierCollisionError {
            identifier: "A".to_string(),
        }))
    );
}

#[test]
fn more_pallets_than_indices_are_rejected() {
    let pallets =
        (0..=256u32).map(|i| pallet(&format!("P{}", i), (i % 256) as u8, vec![])).collect();
    let outcome = generate_from_schema(&schema(pallets, vec![]), "runtime");
    assert_eq!(
        outcome,
        Err(GenerateError::DuplicateDiscriminant(DuplicateDiscriminantError {
            union_name: "RuntimeCall".to_string(),
            discriminant: 0,
            first: "P0".to_string(),
            second: "P256".to_string(),
        }))
    );
}

fn head(declared_id: u32, ident: Option<&str>, is_variant: bool) -> TypeHead {
    TypeHead { declared_id, ident: ident.map(String::from), is_variant }
}

#[test]
fn outer_enum_is_the_first_variant_of_that_name() {
    let heads = vec![
        head(4, Some("RuntimeCall"), false),
        head(5, None, true),
        head(6, Some("RuntimeCall"), true),
        head(7, Some("RuntimeCall"), true),
    ];
    assert_eq!(find_outer_enum(&heads, "RuntimeCall"), Some(6));
    assert_eq!(find_outer_enum(&heads, "RuntimeEvent"), None);
    assert_eq!(find_outer_enum(&[].to_vec(), "RuntimeCall"), None);
}

#[test]
fn call_enum_dangles_only_where_the_table_is_indexed() {
    let call = |id: u32| head(id, Some("RuntimeCall"), true);
    let event = head(0, Some("RuntimeEvent"), true);
    let error = head(0, Some("RuntimeError"), true);
    assert_eq!(dangling_outer_enum(&vec![call(2), event.clone()]), Some(2));
    assert_eq!(dangling_outer_enum(&vec![call(1), event.clone()]), None);
    assert_eq!(dangling_outer_enum(&vec![call(u32::MAX), event.clone()]), Some(u32::MAX));
    assert_eq!(dangling_outer_enum(&vec![call(9), event.clone(), error]), None);
    assert_eq!(dangling_outer_enum(&vec![call(9)]), None);
    assert_eq!(dangling_outer_enum(&vec![event]), None);
    assert_eq!(dangling_outer_enum(&vec![]), None);
}
