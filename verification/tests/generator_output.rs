use better_builder::decls::{Decl, OpKind, OperationDecl, StageDecl};
use better_builder::errors::DeriveError;
use better_builder::fields::{FieldData, RawField, TypeExpr};
use better_builder::generator::{implementation_better_builder, InputData, RecordInput};
use better_builder::BetterBuilderGenerator;

fn named(name: &str, head: &str, text: &str) -> RawField {
    RawField {
        ident: Some(String::from(name)),
        ty: TypeExpr::Path {
            first_segment: String::from(head),
            text: String::from(text),
        },
    }
}

fn record(name: &str, fields: Vec<RawField>) -> RecordInput {
    RecordInput {
        ident: String::from(name),
        vis: String::new(),
        data: InputData::Struct { fields },
    }
}

fn as_stage(d: &Decl) -> &StageDecl {
    match d {
        Decl::Stage(s) => s,
        Decl::Operation(_) => panic!("expected a stage declaration"),
    }
}

fn as_op(d: &Decl) -> &OperationDecl {
    match d {
        Decl::Operation(o) => o,
        Decl::Stage(_) => panic!("expected an operation declaration"),
    }
}

#[test]
fn scenario_basic_cart() {
    // owner: String (required), num_wheels: u8 (required),
    // num_seats: Option<u8> (optional).
    let input = record(
        "Cart",
        vec![
            named("owner", "String", "String"),
            named("num_wheels", "u8", "u8"),
            named("num_seats", "Option", "Option<u8>"),
        ],
    );
    let decls = implementation_better_builder(&input).unwrap();
    assert_eq!(decls.len(), 8);

    let s0 = as_stage(&decls[0]);
    assert_eq!(s0.name, "CartBuilderMissingOwner");
    assert!(s0.fields.is_empty());

    let op0 = as_op(&decls[1]);
    assert_eq!(op0.kind, OpKind::Forward);
    assert_eq!(op0.receiver, "CartBuilderMissingOwner");
    assert_eq!(op0.name, "owner");
    let p = op0.param.as_ref().unwrap();
    assert_eq!(p.name, "owner");
    assert_eq!(p.ty, "String");
    assert_eq!(op0.output, "CartBuilderMissingNumWheels");
    assert!(op0.moved_fields.is_empty());
    assert!(op0.absent_fields.is_empty());

    let s1 = as_stage(&decls[2]);
    assert_eq!(s1.name, "CartBuilderMissingNumWheels");
    assert_eq!(s1.fields.len(), 1);
    assert_eq!(s1.fields[0].name, "owner");
    assert_eq!(s1.fields[0].ty, "String");

    let op1 = as_op(&decls[3]);
    assert_eq!(op1.kind, OpKind::Forward);
    assert_eq!(op1.receiver, "CartBuilderMissingNumWheels");
    assert_eq!(op1.name, "num_wheels");
    let p = op1.param.as_ref().unwrap();
    assert_eq!(p.ty, "u8");
    assert_eq!(op1.output, "CartBuilder");
    assert_eq!(op1.moved_fields, vec![String::from("owner")]);
    assert_eq!(op1.absent_fields, vec![String::from("num_seats")]);

    let terminal = as_stage(&decls[4]);
    assert_eq!(terminal.name, "CartBuilder");
    assert_eq!(terminal.fields.len(), 3);
    assert_eq!(terminal.fields[0].name, "owner");
    assert_eq!(terminal.fields[1].name, "num_wheels");
    assert_eq!(terminal.fields[2].name, "num_seats");
    assert_eq!(terminal.fields[2].ty, "Option<u8>");

    let setter = as_op(&decls[5]);
    assert_eq!(setter.kind, OpKind::SetOptional);
    assert_eq!(setter.receiver, "CartBuilder");
    assert_eq!(setter.name, "num_seats");
    assert_eq!(setter.param.as_ref().unwrap().ty, "Option<u8>");
    assert_eq!(setter.output, "CartBuilder");

    let build = as_op(&decls[6]);
    assert_eq!(build.kind, OpKind::Finalize);
    assert_eq!(build.receiver, "CartBuilder");
    assert_eq!(build.name, "build");
    assert!(build.param.is_none());
    assert_eq!(build.output, "Cart");
    assert_eq!(
        build.moved_fields,
        vec![
            String::from("owner"),
            String::from("num_wheels"),
            String::from("num_seats")
        ]
    );

    let factory = as_op(&decls[7]);
    assert_eq!(factory.kind, OpKind::Factory);
    assert_eq!(factory.receiver, "Cart");
    assert_eq!(factory.name, "builder");
    assert!(factory.param.is_none());
    assert_eq!(factory.output, "CartBuilderMissingOwner");
    assert!(factory.absent_fields.is_empty());
}

#[test]
fn scenario_all_optional() {
    // a: Option<i32>, b: Option<i32>: the factory returns the terminal
    // stage directly, with both fields absent.
    let input = record(
        "Cart",
        vec![
            named("a", "Option", "Option<i32>"),
            named("b", "Option", "Option<i32>"),
        ],
    );
    let decls = implementation_better_builder(&input).unwrap();
    assert_eq!(decls.len(), 5);

    let terminal = as_stage(&decls[0]);
    assert_eq!(terminal.name, "CartBuilder");
    assert_eq!(terminal.fields.len(), 2);

    let set_a = as_op(&decls[1]);
    assert_eq!(set_a.kind, OpKind::SetOptional);
    assert_eq!(set_a.name, "a");
    let set_b = as_op(&decls[2]);
    assert_eq!(set_b.name, "b");
    assert_eq!(set_b.output, "CartBuilder");

    let build = as_op(&decls[3]);
    assert_eq!(build.kind, OpKind::Finalize);
    assert_eq!(build.output, "Cart");

    let factory = as_op(&decls[4]);
    assert_eq!(factory.kind, OpKind::Factory);
    assert_eq!(factory.output, "CartBuilder");
    assert_eq!(
        factory.absent_fields,
        vec![String::from("a"), String::from("b")]
    );
}

#[test]
fn scenario_all_required() {
    let input = record(
        "Point",
        vec![named("x", "i64", "i64"), named("y", "i64", "i64")],
    );
    let decls = implementation_better_builder(&input).unwrap();
    assert_eq!(decls.len(), 7);
    assert_eq!(as_stage(&decls[0]).name, "PointBuilderMissingX");
    assert_eq!(as_op(&decls[1]).output, "PointBuilderMissingY");
    assert_eq!(as_stage(&decls[2]).name, "PointBuilderMissingY");
    assert_eq!(as_op(&decls[3]).output, "PointBuilder");
    assert_eq!(as_op(&decls[3]).moved_fields, vec![String::from("x")]);
    assert!(as_op(&decls[3]).absent_fields.is_empty());
    assert_eq!(as_stage(&decls[4]).name, "PointBuilder");
    assert_eq!(as_op(&decls[5]).name, "build");
    assert_eq!(as_op(&decls[6]).output, "PointBuilderMissingX");
}

#[test]
fn scenario_colliding_names() {
    // Case-converted names collide: the first occurrence is unsuffixed,
    // later ones are numbered in first-encountered order.
    let input = record(
        "Cart",
        vec![
            named("num_wheels", "u8", "u8"),
            named("numwheels", "Option", "Option<u8>"),
            named("NuMWheels", "u16", "u16"),
            named("num_Wheels", "u32", "u32"),
            named("num_wheels_", "u64", "u64"),
        ],
    );
    let decls = implementation_better_builder(&input).unwrap();
    // Four required fields, one optional.
    assert_eq!(decls.len(), 2 * 4 + 1 + 3);
    assert_eq!(as_stage(&decls[0]).name, "CartBuilderMissingNumWheels");
    assert_eq!(as_stage(&decls[2]).name, "CartBuilderMissingNuMWheels");
    assert_eq!(as_stage(&decls[4]).name, "CartBuilderMissingNumWheels1");
    assert_eq!(as_stage(&decls[6]).name, "CartBuilderMissingNumWheels2");
    // The chain is linear: each forwarding operation produces the next
    // stage.
    assert_eq!(as_op(&decls[1]).output, "CartBuilderMissingNuMWheels");
    assert_eq!(as_op(&decls[3]).output, "CartBuilderMissingNumWheels1");
    assert_eq!(as_op(&decls[5]).output, "CartBuilderMissingNumWheels2");
    assert_eq!(as_op(&decls[7]).output, "CartBuilder");
    // The finalize operation transfers the fields in declaration order.
    assert_eq!(
        as_op(&decls[10]).moved_fields,
        vec![
            String::from("num_wheels"),
            String::from("numwheels"),
            String::from("NuMWheels"),
            String::from("num_Wheels"),
            String::from("num_wheels_")
        ]
    );
}

#[test]
fn scenario_no_fields() {
    // A zero-field record: builder() goes straight to the terminal stage
    // and build() produces the unique zero-field value.
    let input = record("Cart", vec![]);
    let decls = implementation_better_builder(&input).unwrap();
    assert_eq!(decls.len(), 3);
    let terminal = as_stage(&decls[0]);
    assert_eq!(terminal.name, "CartBuilder");
    assert!(terminal.fields.is_empty());
    let build = as_op(&decls[1]);
    assert_eq!(build.kind, OpKind::Finalize);
    assert_eq!(build.name, "build");
    assert!(build.moved_fields.is_empty());
    let factory = as_op(&decls[2]);
    assert_eq!(factory.kind, OpKind::Factory);
    assert_eq!(factory.output, "CartBuilder");
    assert!(factory.absent_fields.is_empty());
}

#[test]
fn error_on_enum() {
    let input = RecordInput {
        ident: String::from("NotARecord"),
        vis: String::new(),
        data: InputData::NotStruct,
    };
    let err = implementation_better_builder(&input).unwrap_err();
    assert_eq!(err, DeriveError::StructRequired);
    assert_eq!(err.message(), "BetterBuilder can only be derived on structs.");
}

#[test]
fn error_on_tuple_struct() {
    let input = RecordInput {
        ident: String::from("Pair"),
        vis: String::new(),
        data: InputData::Struct {
            fields: vec![
                RawField {
                    ident: None,
                    ty: TypeExpr::Path {
                        first_segment: String::from("u8"),
                        text: String::from("u8"),
                    },
                },
                RawField {
                    ident: None,
                    ty: TypeExpr::Path {
                        first_segment: String::from("u8"),
                        text: String::from("u8"),
                    },
                },
            ],
        },
    };
    let err = implementation_better_builder(&input).unwrap_err();
    assert_eq!(err, DeriveError::NamedFieldsRequired);
    assert_eq!(
        err.message(),
        "BetterBuilder can only be derived on structs with named fields."
    );
}

#[test]
fn non_path_type_is_required() {
    // A tuple type has no head type-constructor name: never optional.
    let input = record(
        "Holder",
        vec![RawField {
            ident: Some(String::from("pair")),
            ty: TypeExpr::Other {
                text: String::from("(u8, u8)"),
            },
        }],
    );
    let decls = implementation_better_builder(&input).unwrap();
    assert_eq!(decls.len(), 2 * 1 + 0 + 3);
    assert_eq!(as_stage(&decls[0]).name, "HolderBuilderMissingPair");
    assert_eq!(as_op(&decls[1]).param.as_ref().unwrap().ty, "(u8, u8)");
}

#[test]
fn qualified_option_is_not_recognized() {
    // The optionality test is shallow: it reads only the first path
    // segment, so a fully qualified Option is classified required.
    let input = record(
        "Cart",
        vec![named("num_seats", "std", "std::option::Option<u8>")],
    );
    let decls = implementation_better_builder(&input).unwrap();
    assert_eq!(as_stage(&decls[0]).name, "CartBuilderMissingNumSeats");
    assert_eq!(as_op(&decls[1]).kind, OpKind::Forward);
}

#[test]
fn visibility_is_carried_onto_stages() {
    let input = RecordInput {
        ident: String::from("Cart"),
        vis: String::from("pub"),
        data: InputData::Struct {
            fields: vec![named("owner", "String", "String")],
        },
    };
    let decls = implementation_better_builder(&input).unwrap();
    assert_eq!(as_stage(&decls[0]).vis, "pub");
    assert_eq!(as_stage(&decls[2]).vis, "pub");
}

#[test]
fn generator_partitions_stably_and_exposes_names() {
    // An optional field declared first still ends up after the required
    // ones, each group keeping declaration order.
    let input = record(
        "Cart",
        vec![
            named("num_seats", "Option", "Option<u8>"),
            named("owner", "String", "String"),
            named("extras", "Option", "Option<u32>"),
            named("num_wheels", "u8", "u8"),
        ],
    );
    let generator = BetterBuilderGenerator::new(&input).unwrap();
    assert_eq!(generator.struct_name().as_str(), "Cart");
    assert_eq!(generator.visibility().as_str(), "");
    assert_eq!(generator.final_builder_name(), "CartBuilder");

    let fields = generator.fields();
    assert_eq!(fields.len(), 4);
    assert_eq!(fields[0].ident, "owner");
    assert!(!fields[0].is_optional());
    assert_eq!(fields[1].ident, "num_wheels");
    assert_eq!(fields[2].ident, "num_seats");
    assert!(fields[2].is_optional());
    assert_eq!(fields[3].ident, "extras");

    assert_eq!(
        generator.optional_names(),
        vec![String::from("num_seats"), String::from("extras")]
    );

    let setters = generator.generate_optional_setters();
    assert_eq!(setters.len(), 2);
    assert_eq!(setters[0].receiver, "CartBuilder");
    assert_eq!(setters[0].name, "num_seats");
    assert_eq!(setters[1].name, "extras");

    let tail = generator.generate_final_builder();
    assert_eq!(tail.len(), 2 + 3);
    assert_eq!(as_stage(&tail[0]).name, "CartBuilder");
    assert_eq!(as_op(&tail[4]).output, "CartBuilderMissingOwner");
}

#[test]
fn field_try_from_requires_a_name() {
    let unnamed = RawField {
        ident: None,
        ty: TypeExpr::Other {
            text: String::from("u8"),
        },
    };
    assert_eq!(FieldData::try_from(&unnamed).unwrap_err(), DeriveError::NamedFieldsRequired);

    let named_field = named("num_wheels", "u8", "u8");
    let fd = FieldData::try_from(&named_field).unwrap();
    assert_eq!(fd.ident, "num_wheels");
    let gen_field = fd.get_name_and_type();
    assert_eq!(gen_field.name, "num_wheels");
    assert_eq!(gen_field.ty, "u8");
}
