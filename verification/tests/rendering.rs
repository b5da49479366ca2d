use cs_derive::assemble::derive_select;
use cs_derive::descriptor::{
    DeclaredField, DeclaredType, FieldType, GenericParam, Shape, TypeDefinition,
};
use cs_derive::generated::{FieldBinding, Fragment};
use cs_derive::render::{
    render, render_bindings, render_fragment, render_fragments, render_names, render_number,
    render_param, render_params, render_placeholder,
};

fn foo_definition() -> TypeDefinition {
    TypeDefinition {
        name: "Foo".to_string(),
        generics: vec![],
        shape: Shape::Record(vec![
            DeclaredField {
                name: "a".to_string(),
                ty: DeclaredType::Array(Box::new(DeclaredType::Named("Bar".to_string())), 4),
            },
            DeclaredField { name: "b".to_string(), ty: DeclaredType::Named("Baz".to_string()) },
        ]),
    }
}

#[test]
fn numbers_are_written_in_decimal() {
    assert_eq!(render_number(0), "0");
    assert_eq!(render_number(4), "4");
    assert_eq!(render_number(9), "9");
    assert_eq!(render_number(10), "10");
    assert_eq!(render_number(305), "305");
    assert_eq!(render_number(1234567890), "1234567890");
    assert_eq!(render_number(usize::MAX), usize::MAX.to_string());
}

#[test]
fn parameters_are_written_with_their_bounds() {
    let bounded =
        GenericParam { identifier: "E".to_string(), bound: Some("Engine".to_string()), constant: false };
    let free = GenericParam { identifier: "T".to_string(), bound: None, constant: false };
    let sized =
        GenericParam { identifier: "N".to_string(), bound: Some("usize".to_string()), constant: true };
    assert_eq!(render_param(&sized), "const N: usize");
    assert_eq!(render_params(&vec![bounded.clone(), sized.clone()]), "E: Engine, const N: usize");
    let bare = GenericParam { identifier: "M".to_string(), bound: None, constant: true };
    assert_eq!(render_param(&bare), "const M");
    assert_eq!(render_param(&bounded), "E: Engine");
    assert_eq!(render_param(&free), "T");
    assert_eq!(render_params(&vec![]), "");
    assert_eq!(render_params(&vec![free.clone()]), "T");
    assert_eq!(render_params(&vec![bounded, free.clone(), free]), "E: Engine, T, T");
}

#[test]
fn names_are_joined_by_commas() {
    assert_eq!(render_names(&vec![]), "");
    assert_eq!(render_names(&vec!["E".to_string()]), "E");
    assert_eq!(render_names(&vec!["E".to_string(), "T".to_string(), "U".to_string()]), "E, T, U");
}

#[test]
fn scalar_fragment_text() {
    let fragment = Fragment {
        field: "b".to_string(),
        local: "conditionally_select_new_b".to_string(),
        ty: FieldType::Scalar("Baz".to_string()),
    };
    assert_eq!(
        render_fragment(&fragment),
        "let mut conditionally_select_new_b = Baz::conditionally_select(cs, flag, &a.b, &b.b)?; "
    );
}

#[test]
fn array_fragment_text() {
    let fragment = Fragment {
        field: "a".to_string(),
        local: "conditionally_select_new_a".to_string(),
        ty: FieldType::FixedArray("Bar".to_string(), 4),
    };
    assert_eq!(
        render_fragment(&fragment),
        "let mut conditionally_select_new_a: [Bar; 4] = vec![Bar::zero(); 4].try_into().unwrap(); \
         for (c, (this, other)) in conditionally_select_new_a.iter_mut().zip(a.a.iter().zip(b.a.iter())) \
         { *c = Bar::conditionally_select(cs, flag, &this, &other)?; } "
    );
    assert_eq!(render_fragments(&vec![]), "");
    let twice = render_fragments(&vec![fragment.clone(), fragment.clone()]);
    assert_eq!(twice, format!("{}{}", render_fragment(&fragment), render_fragment(&fragment)));
}

#[test]
fn binding_text() {
    let bindings = vec![
        FieldBinding { field: "a".to_string(), local: "x".to_string() },
        FieldBinding { field: "b".to_string(), local: "y".to_string() },
    ];
    assert_eq!(render_bindings(&bindings), "a: x, b: y, ");
    assert_eq!(render_bindings(&vec![]), "");
}

#[test]
fn foo_scenario_text() {
    let g = derive_select(&foo_definition()).unwrap();
    let expected = "impl<E: Engine> CircuitSelectable<E> for Foo<E> { \
        fn conditionally_select<CS: ConstraintSystem<E>>(cs: &mut CS, flag: &Boolean, a: &Self, b: &Self) \
        -> Result<Self, SynthesisError> { \
        if CircuitEq::eq(a, b) { return Ok(a.clone()); } \
        use num_traits::Zero; use std::convert::TryInto; \
        let mut conditionally_select_new_a: [Bar; 4] = vec![Bar::zero(); 4].try_into().unwrap(); \
        for (c, (this, other)) in conditionally_select_new_a.iter_mut().zip(a.a.iter().zip(b.a.iter())) \
        { *c = Bar::conditionally_select(cs, flag, &this, &other)?; } \
        let mut conditionally_select_new_b = Baz::conditionally_select(cs, flag, &a.b, &b.b)?; \
        Ok(Self { a: conditionally_select_new_a, b: conditionally_select_new_b, }) } }";
    assert_eq!(render(&g), expected);
}

#[test]
fn generated_text_reads_as_an_implementation() {
    let g = derive_select(&foo_definition()).unwrap();
    let parsed = syn::parse_str::<syn::ItemImpl>(&render(&g)).unwrap();
    assert_eq!(parsed.generics.params.len(), 1);
    assert_eq!(parsed.items.len(), 1);
    match &parsed.items[0] {
        syn::ImplItem::Method(method) => {
            assert_eq!(method.sig.ident.to_string(), "conditionally_select");
            assert_eq!(method.sig.generics.params.len(), 1);
            assert_eq!(method.sig.inputs.len(), 4);
        }
        _ => panic!("expected a method"),
    }
}

#[test]
fn declared_engine_parameter_is_kept_in_the_header() {
    let mut def = foo_definition();
    def.generics = vec![
        GenericParam { identifier: "E".to_string(), bound: Some("Engine".to_string()), constant: false },
        GenericParam { identifier: "T".to_string(), bound: None, constant: false },
    ];
    let text = render(&derive_select(&def).unwrap());
    assert!(text.starts_with("impl<E: Engine, T> CircuitSelectable<E> for Foo<E, T> { "));
    assert_eq!(text.matches("E: Engine").count(), 1);
}

#[test]
fn placeholder_is_the_zero_of_the_element_type() {
    assert_eq!(render_placeholder(&"Bar".to_string()), "Bar::zero()");
}

#[test]
fn const_parameter_in_the_header() {
    let mut def = foo_definition();
    def.generics = vec![GenericParam {
        identifier: "N".to_string(),
        bound: Some("usize".to_string()),
        constant: true,
    }];
    let text = render(&derive_select(&def).unwrap());
    assert!(text.starts_with("impl<E: Engine, const N: usize> CircuitSelectable<E> for Foo<E, N> { "));
    assert!(syn::parse_str::<syn::ItemImpl>(&text).is_ok());
}
