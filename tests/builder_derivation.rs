use derive_engine::attr::{parse, AttrKind, AttributeError};
use derive_engine::builder;
use derive_engine::builder::{BuilderPlan, Storage};
use derive_engine::classify::{classify_optional, classify_sequence, inner_type};
use derive_engine::error::{DerivationError, ShapeError};
use derive_engine::model::{
    AttrBody, Attribute, DeclKind, Field, GenericArg, Segment, Token, TypeDescriptor, TypeExpr,
    TypeShape,
};
use derive_engine::staged::{BuildError, FieldValue};

fn ty(id: usize, segs: &[&str], args: Vec<TypeExpr>) -> TypeExpr {
    let n = segs.len();
    let mut args = Some(args);
    let segments = segs
        .iter()
        .enumerate()
        .map(|(i, s)| Segment {
            ident: s.to_string(),
            args: if i + 1 == n {
                args.take().unwrap().into_iter().map(GenericArg::Type).collect()
            } else {
                Vec::new()
            },
        })
        .collect();
    TypeExpr { id, shape: TypeShape::Path(segments) }
}

fn string_ty(id: usize) -> TypeExpr {
    ty(id, &["String"], vec![])
}

fn vec_of_string(id: usize) -> TypeExpr {
    ty(id, &["Vec"], vec![string_ty(id + 1)])
}

fn option_of_string(id: usize) -> TypeExpr {
    ty(id, &["Option"], vec![string_ty(id + 1)])
}

fn ident(s: &str) -> Token {
    Token::Ident(s.to_string())
}

fn lit(s: &str) -> Token {
    Token::Literal(s.to_string())
}

fn builder_attr(tokens: Vec<Token>) -> Attribute {
    Attribute { path: vec!["builder".to_string()], body: AttrBody::List(tokens) }
}

fn each(name: &str) -> Attribute {
    builder_attr(vec![ident("each"), Token::Punct('='), lit(&format!("\"{}\"", name))])
}

fn field(name: &str, ty: TypeExpr, attrs: Vec<Attribute>) -> Field {
    Field { name: name.to_string(), ty, attrs }
}

fn record(name: &str, fields: Vec<Field>) -> TypeDescriptor {
    TypeDescriptor { name: name.to_string(), kind: DeclKind::Record, generics: vec![], fields }
}

fn command() -> TypeDescriptor {
    record(
        "Command",
        vec![
            field("executable", string_ty(0), vec![]),
            field("args", vec_of_string(1), vec![each("arg")]),
            field("current_dir", option_of_string(3), vec![]),
        ],
    )
}

fn plan_of(d: &TypeDescriptor) -> BuilderPlan {
    builder::derive(d).unwrap()
}

fn s(x: &str) -> String {
    x.to_string()
}

#[test]
fn command_scenario_builds() {
    let plan = plan_of(&command());
    let mut st = plan.start();
    assert!(plan.call(&mut st, &s("executable"), s("cargo")));
    assert!(plan.call(&mut st, &s("arg"), s("build")));
    assert!(plan.call(&mut st, &s("arg"), s("--release")));
    let built = plan.build(&st).unwrap();
    assert_eq!(
        built,
        vec![
            FieldValue::Plain(s("cargo")),
            FieldValue::Many(vec![s("build"), s("--release")]),
            FieldValue::Maybe(None),
        ]
    );
}

#[test]
fn command_without_executable_fails_naming_it() {
    let plan = plan_of(&command());
    let mut st = plan.start();
    assert!(plan.call(&mut st, &s("arg"), s("build")));
    assert!(plan.call(&mut st, &s("arg"), s("--release")));
    assert_eq!(plan.build(&st), Err(BuildError::RequiredFieldUnset(s("executable"))));
    assert!(plan.call(&mut st, &s("executable"), s("cargo")));
    assert!(plan.build(&st).is_ok());
}

#[test]
fn build_leaves_builder_unchanged() {
    let plan = plan_of(&command());
    let mut st = plan.start();
    plan.set(&mut st, 0, s("cargo"));
    let before = st.clone();
    let first = plan.build(&st);
    assert_eq!(st, before);
    assert_eq!(plan.build(&st), first);
}

#[test]
fn command_plan_follows_wrapping_policy() {
    let plan = plan_of(&command());
    assert_eq!(plan.record_name, "Command");
    assert_eq!(plan.builder_name, "CommandBuilder");
    let kinds: Vec<Storage> = plan.fields.iter().map(|f| f.storage).collect();
    assert_eq!(kinds, vec![Storage::Required, Storage::Repeated, Storage::Optional]);
    let exe = &plan.fields[0];
    assert_eq!(exe.setter.as_ref().map(|x| (x.name.as_str(), x.arg_type)), Some(("executable", 0)));
    assert!(exe.accumulator.is_none());
    let args = &plan.fields[1];
    assert_eq!(args.setter.as_ref().map(|x| (x.name.as_str(), x.arg_type)), Some(("args", 1)));
    assert_eq!(args.accumulator.as_ref().map(|x| (x.name.as_str(), x.arg_type)), Some(("arg", 2)));
    let dir = &plan.fields[2];
    assert_eq!(dir.setter.as_ref().map(|x| (x.name.as_str(), x.arg_type)), Some(("current_dir", 4)));
    assert_eq!(dir.field_type, 3);
}

#[test]
fn accumulator_named_like_field_suppresses_setter() {
    let d = record("Env", vec![field("env", vec_of_string(0), vec![each("env")])]);
    let plan = plan_of(&d);
    assert!(plan.fields[0].setter.is_none());
    assert_eq!(plan.fields[0].accumulator.as_ref().map(|x| x.name.clone()), Some(s("env")));
    let mut st = plan.start();
    assert!(plan.call(&mut st, &s("env"), s("A=1")));
    assert!(plan.call(&mut st, &s("env"), s("B=2")));
    assert_eq!(plan.build(&st), Ok(vec![FieldValue::Many(vec![s("A=1"), s("B=2")])]));
}

#[test]
fn accumulator_keeps_call_order() {
    let plan = plan_of(&command());
    let mut st = plan.start();
    plan.set(&mut st, 0, s("x"));
    for v in ["v1", "v2", "v3"] {
        plan.push(&mut st, 1, s(v));
    }
    let built = plan.build(&st).unwrap();
    assert_eq!(built[1], FieldValue::Many(vec![s("v1"), s("v2"), s("v3")]));
}

#[test]
fn accumulator_without_calls_builds_empty() {
    let plan = plan_of(&command());
    let mut st = plan.start();
    plan.set(&mut st, 0, s("x"));
    let built = plan.build(&st).unwrap();
    assert_eq!(built[1], FieldValue::Many(vec![]));
}

#[test]
fn whole_value_setter_replaces_sequence() {
    let plan = plan_of(&command());
    let mut st = plan.start();
    plan.set(&mut st, 0, s("x"));
    plan.push(&mut st, 1, s("dropped"));
    plan.set_all(&mut st, 1, vec![s("a"), s("b")]);
    plan.push(&mut st, 1, s("c"));
    let built = plan.build(&st).unwrap();
    assert_eq!(built[1], FieldValue::Many(vec![s("a"), s("b"), s("c")]));
}

#[test]
fn optional_field_may_be_omitted() {
    let plan = plan_of(&command());
    let mut st = plan.start();
    plan.set(&mut st, 0, s("cargo"));
    let built = plan.build(&st).unwrap();
    assert_eq!(built[2], FieldValue::Maybe(None));
}

#[test]
fn every_field_set_round_trips() {
    let plan = plan_of(&command());
    let mut st = plan.start();
    assert!(plan.call(&mut st, &s("current_dir"), s("/tmp")));
    assert!(plan.call(&mut st, &s("executable"), s("ls")));
    assert!(plan.call(&mut st, &s("arg"), s("-l")));
    assert_eq!(
        plan.build(&st),
        Ok(vec![
            FieldValue::Plain(s("ls")),
            FieldValue::Many(vec![s("-l")]),
            FieldValue::Maybe(Some(s("/tmp"))),
        ])
    );
}

#[test]
fn first_unset_required_field_is_named() {
    let d = record(
        "Pair",
        vec![field("left", string_ty(0), vec![]), field("right", string_ty(1), vec![])],
    );
    let plan = plan_of(&d);
    let mut st = plan.start();
    assert_eq!(plan.build(&st), Err(BuildError::RequiredFieldUnset(s("left"))));
    plan.set(&mut st, 0, s("l"));
    assert_eq!(plan.build(&st), Err(BuildError::RequiredFieldUnset(s("right"))));
    plan.set(&mut st, 1, s("r"));
    assert_eq!(plan.build(&st), Ok(vec![FieldValue::Plain(s("l")), FieldValue::Plain(s("r"))]));
}

#[test]
fn unknown_method_changes_nothing() {
    let plan = plan_of(&command());
    let mut st = plan.start();
    let before = st.clone();
    assert!(!plan.call(&mut st, &s("args"), s("x")));
    assert!(!plan.call(&mut st, &s("nope"), s("x")));
    assert_eq!(st, before);
}

#[test]
fn zero_field_record_builds() {
    let plan = plan_of(&record("Unit", vec![]));
    assert!(plan.fields.is_empty());
    let st = plan.start();
    assert_eq!(plan.build(&st), Ok(vec![]));
}

#[test]
fn each_with_number_literal_is_malformed() {
    let attr = builder_attr(vec![ident("each"), Token::Punct('='), lit("5")]);
    let d = record("T", vec![field("xs", vec_of_string(0), vec![attr])]);
    assert_eq!(
        builder::derive(&d).err(),
        Some(DerivationError::Attribute(AttributeError::MalformedEach { field: 0, attr: 0 }))
    );
}

#[test]
fn each_without_equals_is_malformed() {
    let attr = builder_attr(vec![ident("each"), Token::Group('(', vec![ident("foo")])]);
    let d = record("T", vec![field("xs", vec_of_string(0), vec![attr])]);
    assert_eq!(
        builder::derive(&d).err(),
        Some(DerivationError::Attribute(AttributeError::MalformedEach { field: 0, attr: 0 }))
    );
}

#[test]
fn each_with_other_shapes_is_malformed() {
    let cases = vec![
        builder_attr(vec![ident("eac"), Token::Punct('='), lit("\"x\"")]),
        builder_attr(vec![ident("each"), Token::Punct(':'), lit("\"x\"")]),
        builder_attr(vec![ident("each"), Token::Punct('=')]),
        builder_attr(vec![ident("each"), Token::Punct('='), lit("\"x\""), Token::Punct(',')]),
        builder_attr(vec![ident("each"), Token::Punct('='), lit("\"not an ident\"")]),
        builder_attr(vec![ident("each"), Token::Punct('='), lit("\"fn\"")]),
        builder_attr(vec![ident("each"), Token::Punct('='), lit("b\"x\"")]),
        Attribute { path: vec![s("builder")], body: AttrBody::Word },
        Attribute { path: vec![s("builder")], body: AttrBody::NameValue(vec![lit("\"x\"")]) },
    ];
    for attr in cases {
        let d = record("T", vec![field("xs", vec_of_string(0), vec![attr])]);
        assert_eq!(
            builder::derive(&d).err(),
            Some(DerivationError::Attribute(AttributeError::MalformedEach { field: 0, attr: 0 }))
        );
    }
}

#[test]
fn each_literal_is_unescaped() {
    let attr = builder_attr(vec![ident("each"), Token::Punct('='), lit("\"\\x61rg\"")]);
    let d = record("T", vec![field("args", vec_of_string(0), vec![attr])]);
    let plan = plan_of(&d);
    assert_eq!(plan.fields[0].accumulator.as_ref().map(|x| x.name.clone()), Some(s("arg")));
}

#[test]
fn each_on_non_sequence_is_a_shape_error() {
    let d = record("T", vec![field("name", string_ty(0), vec![each("x")])]);
    assert_eq!(
        builder::derive(&d).err(),
        Some(DerivationError::Shape(ShapeError::EachOnNonSequence { field: 0 }))
    );
    let d = record("T", vec![field("name", option_of_string(0), vec![each("x")])]);
    assert_eq!(
        builder::derive(&d).err(),
        Some(DerivationError::Shape(ShapeError::EachOnNonSequence { field: 0 }))
    );
}

#[test]
fn second_builder_annotation_is_rejected() {
    let other = Attribute { path: vec![s("doc")], body: AttrBody::NameValue(vec![lit("\"x\"")]) };
    let d = record("T", vec![field("xs", vec_of_string(0), vec![each("x"), other, each("y")])]);
    assert_eq!(
        builder::derive(&d).err(),
        Some(DerivationError::Attribute(AttributeError::Duplicate { field: 0, attr: 2 }))
    );
}

#[test]
fn unrelated_annotations_are_ignored() {
    let doc = Attribute { path: vec![s("doc")], body: AttrBody::NameValue(vec![lit("\"x\"")]) };
    let nested = Attribute {
        path: vec![s("serde"), s("builder")],
        body: AttrBody::List(vec![ident("x")]),
    };
    let d = record("T", vec![field("name", string_ty(0), vec![doc, nested])]);
    let plan = plan_of(&d);
    assert_eq!(plan.fields[0].storage, Storage::Required);
}

#[test]
fn first_error_in_field_order_wins() {
    let bad = builder_attr(vec![ident("each")]);
    let d = record(
        "T",
        vec![
            field("ok", string_ty(0), vec![]),
            field("name", string_ty(1), vec![each("x")]),
            field("xs", vec_of_string(2), vec![bad]),
        ],
    );
    assert_eq!(
        builder::derive(&d).err(),
        Some(DerivationError::Shape(ShapeError::EachOnNonSequence { field: 1 }))
    );
}

#[test]
fn non_record_declaration_is_refused() {
    let mut d = command();
    d.kind = DeclKind::Other;
    assert_eq!(builder::derive(&d).err(), Some(DerivationError::Shape(ShapeError::UnsupportedInputKind)));
}

#[test]
fn optional_is_recognised_at_any_standard_qualification() {
    for segs in [&["Option"][..], &["option", "Option"][..], &["std", "option", "Option"][..]] {
        let d = record("T", vec![field("x", ty(0, segs, vec![string_ty(1)]), vec![])]);
        let plan = plan_of(&d);
        assert_eq!(plan.fields[0].storage, Storage::Optional);
        assert_eq!(plan.fields[0].setter.as_ref().map(|x| x.arg_type), Some(1));
    }
    for segs in [&["my", "Option"][..], &["a", "std", "option", "Option"][..], &["Optional"][..]] {
        let d = record("T", vec![field("x", ty(0, segs, vec![string_ty(1)]), vec![])]);
        let plan = plan_of(&d);
        assert_eq!(plan.fields[0].storage, Storage::Required);
        assert_eq!(plan.fields[0].setter.as_ref().map(|x| x.arg_type), Some(0));
    }
}

#[test]
fn sequence_is_recognised_by_last_segment() {
    let d = record(
        "T",
        vec![field("xs", ty(0, &["std", "vec", "Vec"], vec![string_ty(1)]), vec![each("x")])],
    );
    assert_eq!(plan_of(&d).fields[0].storage, Storage::Repeated);
    let d = record("T", vec![field("xs", ty(0, &["Vector"], vec![string_ty(1)]), vec![each("x")])]);
    assert_eq!(
        builder::derive(&d).err(),
        Some(DerivationError::Shape(ShapeError::EachOnNonSequence { field: 0 }))
    );
}

#[test]
fn missing_type_argument_is_a_shape_error() {
    let d = record("T", vec![field("x", ty(0, &["Option"], vec![]), vec![])]);
    assert_eq!(
        builder::derive(&d).err(),
        Some(DerivationError::Shape(ShapeError::ExpectedGenericArgument { field: 0 }))
    );
    let d = record("T", vec![field("xs", ty(0, &["Vec"], vec![]), vec![each("x")])]);
    assert_eq!(
        builder::derive(&d).err(),
        Some(DerivationError::Shape(ShapeError::ExpectedGenericArgument { field: 0 }))
    );
}

#[test]
fn classifier_reports_inner_types() {
    let t = ty(7, &["std", "option", "Option"], vec![string_ty(8)]);
    assert_eq!(classify_optional(&t).map(|i| i.id), Some(8));
    assert!(!classify_sequence(&t));
    assert_eq!(inner_type(&t, 0).map(|i| i.id), Some(8));
    assert!(inner_type(&t, 1).is_none());
    let v = ty(1, &["alloc", "vec", "Vec"], vec![string_ty(2)]);
    assert!(classify_sequence(&v));
    assert!(classify_optional(&v).is_none());
    let other = TypeExpr { id: 3, shape: TypeShape::Other };
    assert!(!classify_sequence(&other));
    assert!(inner_type(&other, 0).is_none());
}

#[test]
fn parse_reads_each_or_nothing() {
    assert_eq!(parse(&vec![], AttrKind::Builder, 3), Ok(None));
    assert_eq!(parse(&vec![each("item")], AttrKind::Builder, 3), Ok(Some(s("item"))));
    assert_eq!(parse(&vec![each("item")], AttrKind::Debug, 3), Ok(None));
    let bad = builder_attr(vec![ident("each"), Token::Punct('='), lit("5")]);
    assert_eq!(
        parse(&vec![bad, each("item")], AttrKind::Builder, 3),
        Err(AttributeError::MalformedEach { field: 3, attr: 0 })
    );
}
