use derive_builder::api::{FieldInit, SetterKind};
use derive_builder::classify::{classify_field, classify_fields, optional_inner, partition, FieldKind};
use derive_builder::generate::generate;
use derive_builder::layout::{builder_layout, builder_name, factory};
use derive_builder::schema::{
    validate, Declaration, FieldDescriptor, FieldList, GenericArg, SchemaError, Segment, StructDescriptor,
    TypeExpr,
};

fn named(name: &str, args: &[&str]) -> TypeExpr {
    let text = if args.is_empty() { name.to_string() } else { format!("{}<{}>", name, args.join(", ")) };
    TypeExpr::Path {
        qself: false,
        global: false,
        segments: vec![Segment {
            name: name.to_string(),
            args: args.iter().map(|s| GenericArg::Type(s.to_string())).collect(),
        }],
        text,
    }
}

fn other(text: &str) -> TypeExpr {
    TypeExpr::Other { text: text.to_string() }
}

fn field(name: &str, ty: TypeExpr) -> FieldDescriptor {
    FieldDescriptor { name: name.to_string(), ty }
}

fn command_fields() -> Vec<FieldDescriptor> {
    vec![
        field("executable", named("String", &[])),
        field("args", named("Vec", &["String"])),
        field("env", named("Vec", &["String"])),
        field("current_dir", named("Option", &["String"])),
    ]
}

fn command_decl() -> Declaration {
    Declaration::Struct {
        name: "Command".to_string(),
        params: vec![],
        fields: FieldList::Named(command_fields()),
    }
}

fn command_schema() -> StructDescriptor {
    StructDescriptor { name: "Command".to_string(), fields: command_fields() }
}

#[test]
fn option_of_one_type_is_optional() {
    assert_eq!(optional_inner(&named("Option", &["String"])), Some(other("String")));
}

#[test]
fn nested_option_is_unwrapped_one_level() {
    assert_eq!(optional_inner(&named("Option", &["Option<u8>"])), Some(other("Option<u8>")));
}

#[test]
fn other_shapes_are_required() {
    assert_eq!(optional_inner(&named("Vec", &["String"])), None);
    assert_eq!(optional_inner(&named("Option", &[])), None);
    assert_eq!(optional_inner(&named("Option", &["A", "B"])), None);
    assert_eq!(optional_inner(&named("option", &["A"])), None);
    assert_eq!(optional_inner(&other("&'a str")), None);
}

fn seg(name: &str, args: Vec<GenericArg>) -> Segment {
    Segment { name: name.to_string(), args }
}

#[test]
fn other_paths_to_option_are_required() {
    let full = TypeExpr::Path {
        qself: false,
        global: false,
        segments: vec![
            seg("std", vec![]),
            seg("option", vec![]),
            seg("Option", vec![GenericArg::Type("String".to_string())]),
        ],
        text: "std::option::Option<String>".to_string(),
    };
    assert_eq!(optional_inner(&full), None);
    let global = TypeExpr::Path {
        qself: false,
        global: true,
        segments: vec![seg("Option", vec![GenericArg::Type("String".to_string())])],
        text: "::Option<String>".to_string(),
    };
    assert_eq!(optional_inner(&global), None);
    let qualified = TypeExpr::Path {
        qself: true,
        global: false,
        segments: vec![seg("Option", vec![GenericArg::Type("String".to_string())])],
        text: "<T as Trait>::Option<String>".to_string(),
    };
    assert_eq!(optional_inner(&qualified), None);
    let lifetime = TypeExpr::Path {
        qself: false,
        global: false,
        segments: vec![seg("Option", vec![GenericArg::Other("'a".to_string())])],
        text: "Option<'a>".to_string(),
    };
    assert_eq!(optional_inner(&lifetime), None);
}

#[test]
fn classify_field_keeps_descriptor_and_position() {
    let c = classify_field(3, &field("current_dir", named("Option", &["String"])));
    assert_eq!(c.position, 3);
    assert_eq!(c.descriptor, field("current_dir", named("Option", &["String"])));
    assert_eq!(c.kind, FieldKind::Optional(other("String")));
    let c = classify_field(0, &field("executable", named("String", &[])));
    assert_eq!(c.kind, FieldKind::Required);
}

#[test]
fn partition_keeps_declaration_order() {
    let s = StructDescriptor {
        name: "R".to_string(),
        fields: vec![
            field("a", named("Option", &["u8"])),
            field("b", named("u8", &[])),
            field("c", named("Option", &["u16"])),
            field("d", other("(u8, u8)")),
        ],
    };
    let (req, opt) = partition(&classify_fields(&s));
    let req: Vec<usize> = req.iter().map(|c| c.position).collect();
    let opt: Vec<usize> = opt.iter().map(|c| c.position).collect();
    assert_eq!(req, vec![1, 3]);
    assert_eq!(opt, vec![0, 2]);
}

#[test]
fn classifying_twice_gives_the_same_partition() {
    let s = command_schema();
    let first = partition(&classify_fields(&s));
    let second = partition(&classify_fields(&s));
    assert_eq!(first, second);
}

#[test]
fn same_types_classify_alike() {
    let a = classify_fields(&StructDescriptor {
        name: "A".to_string(),
        fields: vec![field("x", named("Option", &["u8"])), field("y", named("u8", &[]))],
    });
    let b = classify_fields(&StructDescriptor {
        name: "B".to_string(),
        fields: vec![field("p", named("Option", &["u8"])), field("q", named("u8", &[]))],
    });
    for i in 0..2 {
        assert_eq!(a[i].kind, b[i].kind);
    }
}

#[test]
fn validate_accepts_named_fields() {
    assert_eq!(validate(command_decl()), Ok(command_schema()));
}

#[test]
fn validate_refuses_struct_without_fields() {
    let empty = Declaration::Struct {
        name: "E".to_string(),
        params: vec![],
        fields: FieldList::Named(vec![]),
    };
    assert_eq!(validate(empty).err(), Some(SchemaError::NoNamedFields));
    let empty = Declaration::Struct {
        name: "E".to_string(),
        params: vec![],
        fields: FieldList::Named(vec![]),
    };
    assert_eq!(derive_builder::generate::derive(empty).err(), Some(SchemaError::NoNamedFields));
}

#[test]
fn validate_refuses_generic_struct() {
    let generic = Declaration::Struct {
        name: "W".to_string(),
        params: vec!["T".to_string()],
        fields: FieldList::Named(vec![field("v", named("T", &[]))]),
    };
    assert_eq!(validate(generic).err(), Some(SchemaError::Generic));
    let with_lifetime = Declaration::Struct {
        name: "W".to_string(),
        params: vec!["'a".to_string()],
        fields: FieldList::Named(vec![field("v", other("&'a str"))]),
    };
    assert_eq!(
        derive_builder::generate::derive(with_lifetime).err(),
        Some(SchemaError::Generic)
    );
}

#[test]
fn validate_refuses_other_declarations() {
    let tuple = Declaration::Struct {
        name: "T".to_string(),
        params: vec![],
        fields: FieldList::Unnamed(vec![named("u8", &[])]),
    };
    assert_eq!(validate(tuple).err(), Some(SchemaError::NoNamedFields));
    let unit = Declaration::Struct { name: "U".to_string(), params: vec![], fields: FieldList::Unit };
    assert_eq!(validate(unit).err(), Some(SchemaError::NoNamedFields));
    assert_eq!(validate(Declaration::Enum { name: "E".to_string() }).err(), Some(SchemaError::NotAStruct));
    assert_eq!(validate(Declaration::Union { name: "U".to_string() }).err(), Some(SchemaError::NotAStruct));
}

#[test]
fn schema_error_messages() {
    assert_eq!(SchemaError::NotAStruct.message(), "Builder macro only works on structs");
    assert_eq!(
        SchemaError::NoNamedFields.message(),
        "Builder macro only works on structs with named fields"
    );
    assert_eq!(
        SchemaError::Generic.message(),
        "Builder macro only works on structs without generic parameters"
    );
}

#[test]
fn derive_refuses_an_enum() {
    assert_eq!(derive_builder::generate::derive(Declaration::Enum { name: "E".to_string() }).err(), Some(SchemaError::NotAStruct));
}

#[test]
fn builder_type_is_named_after_target() {
    assert_eq!(builder_name(&"Command".to_string()), "CommandBuilder");
}

#[test]
fn layout_has_one_slot_per_field_with_declared_type() {
    let l = builder_layout(&command_schema());
    assert_eq!(l.name, "CommandBuilder");
    let names: Vec<&str> = l.slots.iter().map(|s| s.name.as_str()).collect();
    assert_eq!(names, vec!["executable", "args", "env", "current_dir"]);
    assert_eq!(l.slots[3].ty, named("Option", &["String"]));
    assert_eq!(l.slots[1].ty, named("Vec", &["String"]));
}

#[test]
fn factory_sets_every_field_absent() {
    let f = factory(&command_schema());
    assert_eq!(f.target, "Command");
    assert_eq!(f.builder, "CommandBuilder");
    assert_eq!(f.absent, vec!["executable", "args", "env", "current_dir"]);
}

#[test]
fn command_artifact() {
    let a = derive_builder::generate::derive(command_decl()).unwrap();
    assert_eq!(a, generate(&command_schema()));
    assert_eq!(a.target, "Command");
    let setters: Vec<(&str, usize, SetterKind)> =
        a.api.setters.iter().map(|s| (s.name.as_str(), s.slot, s.kind)).collect();
    assert_eq!(
        setters,
        vec![
            ("executable", 0, SetterKind::Store),
            ("args", 1, SetterKind::Store),
            ("env", 2, SetterKind::Store),
            ("current_dir", 3, SetterKind::StoreWrapped),
        ]
    );
    assert_eq!(a.api.setters[3].param, other("String"));
    assert_eq!(a.api.setters[1].param, named("Vec", &["String"]));
    let checks: Vec<(usize, &str)> =
        a.api.finalize.checks.iter().map(|c| (c.slot, c.message.as_str())).collect();
    assert_eq!(
        checks,
        vec![
            (0, "Field executable was never set"),
            (1, "Field args was never set"),
            (2, "Field env was never set"),
        ]
    );
    assert_eq!(
        a.api.finalize.inits,
        vec![FieldInit::Unwrap, FieldInit::Unwrap, FieldInit::Unwrap, FieldInit::UnwrapOrAbsent]
    );
}

#[test]
fn required_setters_come_before_optional_ones() {
    let s = StructDescriptor {
        name: "R".to_string(),
        fields: vec![field("a", named("Option", &["u8"])), field("b", named("u8", &[]))],
    };
    let a = generate(&s);
    let names: Vec<&str> = a.api.setters.iter().map(|s| s.name.as_str()).collect();
    assert_eq!(names, vec!["b", "a"]);
    assert_eq!(a.api.setters[1].slot, 0);
    assert_eq!(a.api.finalize.inits, vec![FieldInit::UnwrapOrAbsent, FieldInit::Unwrap]);
}
