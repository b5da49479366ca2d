use cs_derive::assemble::{
    assemble, assemble_if_accepted, check_locals, copy_field_type, derive_select,
    synthesize_field, try_derive_select,
};
use cs_derive::classify::{classify, describe};
use cs_derive::descriptor::{
    DeclaredField, DeclaredType, Diagnostic, FieldDescriptor, FieldType, GenericParam, Shape,
    TypeDefinition, TypeDescriptor, copy_param, copy_params,
};
use cs_derive::generated::{FieldBinding, Fragment};
use cs_derive::generics::{has_engine_param, resolve_generics};
use cs_derive::naming::{has_no_bracket, local_name_of};

fn named(name: &str) -> DeclaredType {
    DeclaredType::Named(name.to_string())
}

fn array(elem: DeclaredType, len: usize) -> DeclaredType {
    DeclaredType::Array(Box::new(elem), len)
}

fn field(name: &str, ty: DeclaredType) -> DeclaredField {
    DeclaredField { name: name.to_string(), ty }
}

fn param(identifier: &str, bound: Option<&str>) -> GenericParam {
    GenericParam {
        identifier: identifier.to_string(),
        bound: bound.map(|b| b.to_string()),
        constant: false,
    }
}

fn constant(identifier: &str, ty: &str) -> GenericParam {
    GenericParam { identifier: identifier.to_string(), bound: Some(ty.to_string()), constant: true }
}

fn record(name: &str, generics: Vec<GenericParam>, fields: Vec<DeclaredField>) -> TypeDefinition {
    TypeDefinition { name: name.to_string(), generics, shape: Shape::Record(fields) }
}

fn foo() -> TypeDefinition {
    record("Foo", vec![], vec![field("a", array(named("Bar"), 4)), field("b", named("Baz"))])
}

#[test]
fn classify_named_type_is_scalar() {
    assert_eq!(classify(&named("Baz")), Some(FieldType::Scalar("Baz".to_string())));
}

#[test]
fn classify_array_of_named_type_is_fixed_array() {
    assert_eq!(
        classify(&array(named("Bar"), 4)),
        Some(FieldType::FixedArray("Bar".to_string(), 4))
    );
    assert_eq!(
        classify(&array(named("Bar"), 0)),
        Some(FieldType::FixedArray("Bar".to_string(), 0))
    );
}

#[test]
fn classify_rejects_compound_types() {
    assert_eq!(classify(&DeclaredType::Tuple), None);
    assert_eq!(classify(&DeclaredType::Reference), None);
    assert_eq!(classify(&DeclaredType::Other), None);
    assert_eq!(classify(&array(array(named("Bar"), 2), 3)), None);
    assert_eq!(classify(&array(DeclaredType::Tuple, 3)), None);
    assert_eq!(classify(&array(DeclaredType::Reference, 1)), None);
}

#[test]
fn classify_rejects_types_with_arguments() {
    let container = || DeclaredType::Parameterized("Vec<Bar>".to_string());
    assert_eq!(classify(&container()), None);
    assert_eq!(classify(&array(container(), 3)), None);
    let def = record("Holder", vec![], vec![field("ok", named("Bar")), field("items", container())]);
    let expected = Diagnostic::UnsupportedFieldType { field: "items".to_string() };
    assert_eq!(describe(&def), Err(expected.clone()));
    assert_eq!(try_derive_select(&def), Some(Err(expected)));
}

#[test]
fn describe_keeps_name_generics_and_field_order() {
    let def = record(
        "Pair",
        vec![param("T", None), param("E", Some("Engine"))],
        vec![field("second", named("B")), field("first", array(named("A"), 2))],
    );
    let expected = TypeDescriptor {
        name: "Pair".to_string(),
        generics: vec![param("T", None), param("E", Some("Engine"))],
        fields: vec![
            FieldDescriptor { name: "second".to_string(), ty: FieldType::Scalar("B".to_string()) },
            FieldDescriptor {
                name: "first".to_string(),
                ty: FieldType::FixedArray("A".to_string(), 2),
            },
        ],
    };
    assert_eq!(describe(&def), Ok(expected));
}

#[test]
fn describe_rejects_shapes_that_are_no_record() {
    for shape in [Shape::Positional, Shape::Unit, Shape::NotAStruct] {
        let def = TypeDefinition { name: "Odd".to_string(), generics: vec![], shape };
        assert_eq!(
            describe(&def),
            Err(Diagnostic::UnsupportedShape { subject: "Odd".to_string() })
        );
        assert_eq!(
            try_derive_select(&def),
            Some(Err(Diagnostic::UnsupportedShape { subject: "Odd".to_string() }))
        );
    }
}

#[test]
fn nested_array_field_is_rejected_with_its_name() {
    let def = record("Grid", vec![], vec![field("a", array(array(named("Bar"), 2), 3))]);
    let expected = Diagnostic::UnsupportedFieldType { field: "a".to_string() };
    assert_eq!(describe(&def), Err(expected.clone()));
    assert_eq!(derive_select(&def), Err(expected.clone()));
    assert_eq!(try_derive_select(&def), Some(Err(expected)));
}

#[test]
fn tuple_field_is_rejected_with_its_name() {
    let def = record(
        "Mixed",
        vec![],
        vec![field("ok", named("Bar")), field("pair", DeclaredType::Tuple)],
    );
    assert_eq!(
        try_derive_select(&def),
        Some(Err(Diagnostic::UnsupportedFieldType { field: "pair".to_string() }))
    );
}

#[test]
fn first_unsupported_field_is_the_one_reported() {
    let def = record(
        "Many",
        vec![],
        vec![
            field("x", named("Bar")),
            field("y", DeclaredType::Reference),
            field("z", DeclaredType::Tuple),
        ],
    );
    assert_eq!(
        describe(&def),
        Err(Diagnostic::UnsupportedFieldType { field: "y".to_string() })
    );
}

#[test]
fn empty_record_generates_an_empty_body() {
    let def = record("Nothing", vec![], vec![]);
    let g = derive_select(&def).unwrap();
    assert_eq!(g.subject, "Nothing");
    assert!(g.array_fragments.is_empty());
    assert!(g.scalar_fragments.is_empty());
    assert!(g.bindings.is_empty());
    assert!(g.generics.injected);
}

#[test]
fn local_name_is_prefix_then_field() {
    assert_eq!(local_name_of(&"a".to_string()), "conditionally_select_new_a");
    assert_eq!(local_name_of(&"".to_string()), "conditionally_select_new_");
}

#[test]
fn synthesize_field_binds_the_local_name() {
    let f = FieldDescriptor { name: "b".to_string(), ty: FieldType::Scalar("Baz".to_string()) };
    let (fragment, binding) = synthesize_field(&f);
    assert_eq!(
        fragment,
        Fragment {
            field: "b".to_string(),
            local: "conditionally_select_new_b".to_string(),
            ty: FieldType::Scalar("Baz".to_string()),
        }
    );
    assert_eq!(
        binding,
        FieldBinding { field: "b".to_string(), local: "conditionally_select_new_b".to_string() }
    );
}

#[test]
fn foo_scenario_structure() {
    let g = try_derive_select(&foo()).unwrap().unwrap();
    assert_eq!(g.subject, "Foo");
    assert!(g.generics.injected);
    assert_eq!(g.generics.impl_generics, vec![param("E", Some("Engine"))]);
    assert_eq!(g.generics.type_arguments, vec!["E".to_string()]);
    assert_eq!(g.generics.function_generics, vec![param("CS", Some("ConstraintSystem<E>"))]);
    assert_eq!(
        g.array_fragments,
        vec![Fragment {
            field: "a".to_string(),
            local: "conditionally_select_new_a".to_string(),
            ty: FieldType::FixedArray("Bar".to_string(), 4),
        }]
    );
    assert_eq!(
        g.scalar_fragments,
        vec![Fragment {
            field: "b".to_string(),
            local: "conditionally_select_new_b".to_string(),
            ty: FieldType::Scalar("Baz".to_string()),
        }]
    );
    assert_eq!(
        g.bindings,
        vec![
            FieldBinding { field: "a".to_string(), local: "conditionally_select_new_a".to_string() },
            FieldBinding { field: "b".to_string(), local: "conditionally_select_new_b".to_string() },
        ]
    );
}

#[test]
fn generation_is_repeatable() {
    assert_eq!(try_derive_select(&foo()), try_derive_select(&foo()));
    assert_eq!(derive_select(&foo()), try_derive_select(&foo()).unwrap());
}

#[test]
fn reordered_fields_reorder_bindings_and_groups() {
    let def = record(
        "R",
        vec![],
        vec![
            field("s1", named("S")),
            field("a1", array(named("A"), 2)),
            field("s2", named("S")),
            field("a2", array(named("A"), 3)),
        ],
    );
    let g = derive_select(&def).unwrap();
    let fields = |fs: &Vec<Fragment>| fs.iter().map(|f| f.field.clone()).collect::<Vec<_>>();
    assert_eq!(fields(&g.array_fragments), vec!["a1", "a2"]);
    assert_eq!(fields(&g.scalar_fragments), vec!["s1", "s2"]);
    let bound: Vec<String> = g.bindings.iter().map(|b| b.field.clone()).collect();
    assert_eq!(bound, vec!["s1", "a1", "s2", "a2"]);

    let swapped = record(
        "R",
        vec![],
        vec![
            field("a2", array(named("A"), 3)),
            field("s2", named("S")),
            field("a1", array(named("A"), 2)),
            field("s1", named("S")),
        ],
    );
    let g = derive_select(&swapped).unwrap();
    assert_eq!(fields(&g.array_fragments), vec!["a2", "a1"]);
    assert_eq!(fields(&g.scalar_fragments), vec!["s2", "s1"]);
    let bound: Vec<String> = g.bindings.iter().map(|b| b.field.clone()).collect();
    assert_eq!(bound, vec!["a2", "s2", "a1", "s1"]);
}

#[test]
fn engine_parameter_is_not_added_twice() {
    let declared = vec![param("T", None), param("E", Some("Engine"))];
    assert!(has_engine_param(&declared));
    let r = resolve_generics(&declared);
    assert!(!r.injected);
    assert_eq!(r.impl_generics, declared);
    assert_eq!(r.type_arguments, vec!["T".to_string(), "E".to_string()]);
    assert_eq!(r.function_generics, vec![param("CS", Some("ConstraintSystem<E>"))]);
    let again = resolve_generics(&r.impl_generics);
    assert_eq!(again, r);
}

#[test]
fn engine_parameter_is_prepended_once() {
    let declared = vec![param("T", Some("Clone")), param("U", None)];
    assert!(!has_engine_param(&declared));
    let r = resolve_generics(&declared);
    assert!(r.injected);
    assert_eq!(
        r.impl_generics,
        vec![param("E", Some("Engine")), param("T", Some("Clone")), param("U", None)]
    );
    assert_eq!(r.type_arguments, vec!["E".to_string(), "T".to_string(), "U".to_string()]);
    let engines = r.impl_generics.iter().filter(|p| p.bound.as_deref() == Some("Engine")).count();
    assert_eq!(engines, 1);
    let again = resolve_generics(&r.impl_generics);
    assert!(!again.injected);
    assert_eq!(again.impl_generics, r.impl_generics);
}

#[test]
fn local_name_that_is_no_identifier_stops_generation() {
    let def = record("Raw", vec![], vec![field("r#type", named("Bar"))]);
    assert_eq!(try_derive_select(&def), None);
    let def = record("Dash", vec![], vec![field("a-b", named("Bar"))]);
    assert_eq!(try_derive_select(&def), None);
    let def = record("Fine", vec![], vec![field("type", named("Bar"))]);
    assert!(try_derive_select(&def).unwrap().is_ok());
}

#[test]
fn assemble_on_a_descriptor() {
    let d = describe(&foo()).unwrap();
    let g = assemble(&d);
    assert_eq!(Ok(g), derive_select(&foo()));
}

#[test]
fn rejected_definition_gives_its_diagnostic_whatever_its_names() {
    let def = record("Bad", vec![], vec![field("r#x", DeclaredType::Tuple)]);
    assert_eq!(
        try_derive_select(&def),
        Some(Err(Diagnostic::UnsupportedFieldType { field: "r#x".to_string() }))
    );
    let def = record("Bad", vec![], vec![field("f(x)", DeclaredType::Reference)]);
    assert_eq!(
        try_derive_select(&def),
        Some(Err(Diagnostic::UnsupportedFieldType { field: "f(x)".to_string() }))
    );
    let def = TypeDefinition { name: "U".to_string(), generics: vec![], shape: Shape::Unit };
    assert_eq!(
        try_derive_select(&def),
        Some(Err(Diagnostic::UnsupportedShape { subject: "U".to_string() }))
    );
}

#[test]
fn brackets_are_found() {
    assert!(has_no_bracket(""));
    assert!(has_no_bracket("conditionally_select_new_a"));
    assert!(has_no_bracket("a b <c> \u{e9}"));
    for bracket in ["(", ")", "[", "]", "{", "}"] {
        assert!(!has_no_bracket(bracket));
        assert!(!has_no_bracket(&format!("name{}", bracket)));
        assert!(!has_no_bracket(&format!("{}name", bracket)));
    }
}

#[test]
fn local_name_with_a_bracket_stops_generation() {
    for name in ["a(b)", "a[0]", "a{}", "x)", "(", "]"] {
        let def = record("B", vec![], vec![field("ok", named("Bar")), field(name, named("Bar"))]);
        assert_eq!(try_derive_select(&def), None);
    }
}

#[test]
fn deeply_nested_brackets_stop_generation() {
    let depth = 100_000;
    let name = format!("{}{}", "(".repeat(depth), ")".repeat(depth));
    let def = record("Deep", vec![], vec![field(&name, named("Bar"))]);
    assert_eq!(try_derive_select(&def), None);
    let d = describe(&def).unwrap();
    assert!(!check_locals(&d));
}

#[test]
fn derive_select_does_not_test_the_names() {
    let def = record("Raw", vec![], vec![field("a-b", named("Bar"))]);
    let g = derive_select(&def).unwrap();
    assert_eq!(g.bindings[0].local, "conditionally_select_new_a-b");
    assert_eq!(try_derive_select(&def), None);
}

#[test]
fn assembly_follows_the_answer_on_the_names() {
    let d = describe(&foo()).unwrap();
    assert_eq!(assemble_if_accepted(&d, false), None);
    assert_eq!(assemble_if_accepted(&d, true), Some(assemble(&d)));
    assert_eq!(assemble_if_accepted(&d, check_locals(&d)), Some(assemble(&d)));
}

#[test]
fn local_names_are_checked_field_by_field() {
    let usable = TypeDescriptor {
        name: "T".to_string(),
        generics: vec![],
        fields: vec![
            FieldDescriptor { name: "x".to_string(), ty: FieldType::Scalar("A".to_string()) },
            FieldDescriptor { name: "y1".to_string(), ty: FieldType::Scalar("A".to_string()) },
        ],
    };
    assert!(check_locals(&usable));
    let unusable = TypeDescriptor {
        name: "T".to_string(),
        generics: vec![],
        fields: vec![
            FieldDescriptor { name: "x".to_string(), ty: FieldType::Scalar("A".to_string()) },
            FieldDescriptor { name: "y z".to_string(), ty: FieldType::Scalar("A".to_string()) },
        ],
    };
    assert!(!check_locals(&unusable));
    let empty = TypeDescriptor { name: "T".to_string(), generics: vec![], fields: vec![] };
    assert!(check_locals(&empty));
}

#[test]
fn copies_are_equal_to_what_they_copy() {
    let bounded = param("E", Some("Engine"));
    let free = param("T", None);
    assert_eq!(copy_param(&bounded), bounded);
    assert_eq!(copy_param(&free), free);
    let all = vec![free, bounded];
    assert_eq!(copy_params(&all), all);
    let ty = FieldType::FixedArray("Bar".to_string(), 7);
    assert_eq!(copy_field_type(&ty), ty);
    let ty = FieldType::Scalar("Baz".to_string());
    assert_eq!(copy_field_type(&ty), ty);
}

#[test]
fn two_engine_bounded_parameters_add_nothing() {
    let declared = vec![param("E", Some("Engine")), param("T", Some("Engine"))];
    let r = resolve_generics(&declared);
    assert!(!r.injected);
    assert_eq!(r.impl_generics, declared);
    assert_eq!(r.function_generics.len(), 1);
    assert_eq!(r.function_generics[0].identifier, "CS");
}

#[test]
fn declared_parameter_named_cs_is_left_alone() {
    let declared = vec![param("CS", None), param("E", Some("Engine"))];
    let r = resolve_generics(&declared);
    assert!(!r.injected);
    assert_eq!(r.impl_generics, declared);
    assert_eq!(r.type_arguments, vec!["CS".to_string(), "E".to_string()]);
    assert_eq!(r.function_generics, vec![param("CS", Some("ConstraintSystem<E>"))]);
}

#[test]
fn const_parameter_is_kept_and_is_no_engine() {
    let declared = vec![constant("N", "usize"), param("T", None)];
    assert!(!has_engine_param(&declared));
    let r = resolve_generics(&declared);
    assert!(r.injected);
    assert_eq!(
        r.impl_generics,
        vec![param("E", Some("Engine")), constant("N", "usize"), param("T", None)]
    );
    assert_eq!(r.type_arguments, vec!["E".to_string(), "N".to_string(), "T".to_string()]);
    assert_eq!(copy_param(&declared[0]), declared[0]);

    let odd = vec![constant("N", "Engine")];
    assert!(!has_engine_param(&odd));
    assert!(resolve_generics(&odd).injected);
}

#[test]
fn record_without_fields_is_always_generated() {
    let def = record("Nothing", vec![], vec![]);
    let g = try_derive_select(&def).unwrap().unwrap();
    assert_eq!(Ok(g), derive_select(&def));
    let d = describe(&def).unwrap();
    assert!(check_locals(&d));
    assert_eq!(assemble_if_accepted(&d, check_locals(&d)), Some(assemble(&d)));
}
