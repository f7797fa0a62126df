use derive_builder::generate::{generate, Artifact};
use derive_builder::runtime::{BuilderState, FieldValue};
use derive_builder::schema::{FieldDescriptor, GenericArg, Segment, StructDescriptor, TypeExpr};

fn named(name: &str, args: &[&str]) -> TypeExpr {
    let text = if args.is_empty() { name.to_string() } else { format!("{}<{}>", name, args.join(", ")) };
    TypeExpr::Path {
        qself: false,
        global: false,
        segments: vec![Segment {
            name: name.to_string(),
            args: args.iter().map(|s| GenericArg::Type(s.to_string())).collect(),
        }],
        text,
    }
}

fn field(name: &str, ty: TypeExpr) -> FieldDescriptor {
    FieldDescriptor { name: name.to_string(), ty }
}

// a: required, b: optional, c: required, d: optional
fn mixed() -> Artifact {
    generate(&StructDescriptor {
        name: "Mixed".to_string(),
        fields: vec![
            field("a", named("u32", &[])),
            field("b", named("Option", &["u32"])),
            field("c", named("u32", &[])),
            field("d", named("Option", &["u32"])),
        ],
    })
}

fn setter(a: &Artifact, name: &str) -> usize {
    a.api.setters.iter().position(|s| s.name == name).unwrap()
}

#[test]
fn fresh_builder_fails_on_first_required_field() {
    let a = mixed();
    let st: BuilderState<u32> = BuilderState::new(&a.layout);
    assert_eq!(st.slots.len(), 4);
    assert_eq!(st.build(&a.api.finalize).unwrap_err(), "Field a was never set");
}

#[test]
fn first_unset_required_field_is_named() {
    let a = mixed();
    let mut st: BuilderState<u32> = BuilderState::new(&a.layout);
    st.set(&a.api.setters[setter(&a, "a")], 1);
    st.set(&a.api.setters[setter(&a, "d")], 4);
    assert_eq!(st.build(&a.api.finalize).unwrap_err(), "Field c was never set");
}

#[test]
fn required_values_suffice() {
    let a = mixed();
    let mut st: BuilderState<u32> = BuilderState::new(&a.layout);
    st.set(&a.api.setters[setter(&a, "a")], 10);
    st.set(&a.api.setters[setter(&a, "c")], 30);
    let out = st.build(&a.api.finalize).unwrap();
    assert_eq!(
        out,
        vec![
            FieldValue::Plain(&10),
            FieldValue::Maybe(None),
            FieldValue::Plain(&30),
            FieldValue::Maybe(None),
        ]
    );
}

#[test]
fn optional_value_is_wrapped_once() {
    let a = mixed();
    let mut st: BuilderState<u32> = BuilderState::new(&a.layout);
    st.set(&a.api.setters[setter(&a, "a")], 1);
    st.set(&a.api.setters[setter(&a, "c")], 3);
    st.set(&a.api.setters[setter(&a, "b")], 2);
    assert_eq!(st.slots[1], Some(FieldValue::Maybe(Some(2))));
    let out = st.build(&a.api.finalize).unwrap();
    assert_eq!(out[1], FieldValue::Maybe(Some(&2)));
    assert_eq!(out[3], FieldValue::Maybe(None));
}

#[test]
fn values_follow_declaration_order() {
    let a = mixed();
    let mut one: BuilderState<u32> = BuilderState::new(&a.layout);
    for name in ["d", "c", "b", "a"] {
        one.set(&a.api.setters[setter(&a, name)], name.len() as u32 + name.as_bytes()[0] as u32);
    }
    let mut two: BuilderState<u32> = BuilderState::new(&a.layout);
    for name in ["a", "b", "c", "d"] {
        two.set(&a.api.setters[setter(&a, name)], name.len() as u32 + name.as_bytes()[0] as u32);
    }
    let x = one.build(&a.api.finalize).unwrap();
    let y = two.build(&a.api.finalize).unwrap();
    assert_eq!(x, y);
    assert_eq!(x[0], FieldValue::Plain(&98));
    assert_eq!(x[1], FieldValue::Maybe(Some(&99)));
    assert_eq!(x[2], FieldValue::Plain(&100));
    assert_eq!(x[3], FieldValue::Maybe(Some(&101)));
}

#[test]
fn build_only_reads_the_slots() {
    let a = mixed();
    let mut st: BuilderState<String> = BuilderState::new(&a.layout);
    st.set(&a.api.setters[setter(&a, "a")], "x".to_string());
    st.set(&a.api.setters[setter(&a, "c")], "y".to_string());
    let first = st.build(&a.api.finalize).unwrap().len();
    let second = st.build(&a.api.finalize).unwrap();
    assert_eq!(first, 4);
    assert_eq!(second[0], FieldValue::Plain(&"x".to_string()));
}

#[test]
fn record_without_fields_builds_at_once() {
    let a = generate(&StructDescriptor { name: "Empty".to_string(), fields: vec![] });
    let st: BuilderState<u8> = BuilderState::new(&a.layout);
    assert_eq!(st.build(&a.api.finalize).unwrap(), vec![]);
}

#[test]
fn last_call_per_field_counts() {
    let a = mixed();
    let mut st: BuilderState<u32> = BuilderState::new(&a.layout);
    st.set(&a.api.setters[setter(&a, "c")], 5);
    st.set(&a.api.setters[setter(&a, "a")], 1);
    st.set(&a.api.setters[setter(&a, "d")], 6);
    st.set(&a.api.setters[setter(&a, "c")], 3);
    st.set(&a.api.setters[setter(&a, "d")], 4);
    let out = st.build(&a.api.finalize).unwrap();
    assert_eq!(
        out,
        vec![
            FieldValue::Plain(&1),
            FieldValue::Maybe(None),
            FieldValue::Plain(&3),
            FieldValue::Maybe(Some(&4)),
        ]
    );
}

#[test]
fn optional_slots_never_decide_success() {
    let a = mixed();
    let mut st: BuilderState<u32> = BuilderState::new(&a.layout);
    st.set(&a.api.setters[setter(&a, "b")], 2);
    st.set(&a.api.setters[setter(&a, "d")], 4);
    st.set(&a.api.setters[setter(&a, "c")], 3);
    assert_eq!(st.build(&a.api.finalize).unwrap_err(), "Field a was never set");
    st.set(&a.api.setters[setter(&a, "a")], 1);
    assert!(st.build(&a.api.finalize).is_ok());
}
