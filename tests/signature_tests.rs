use pyo3cls::descriptor::{descriptor_table, ArgDescriptor};
use pyo3cls::method::{gen_py_method, METH_KEYWORDS, METH_VARARGS};
use pyo3cls::signature::{
    classify_signature, classify_type, ArgPattern, DeclaredType, FnInput, MethodSig, PathSegment,
    SignatureError, TypeFault, TypeParams,
};

fn plain(name: &str) -> DeclaredType {
    DeclaredType::Path {
        qualified_self: false,
        segments: vec![PathSegment {
            ident: name.to_string(),
            parameters: TypeParams::AngleBracketed(vec![]),
        }],
    }
}

fn option_of(args: Vec<&str>) -> DeclaredType {
    DeclaredType::Path {
        qualified_self: false,
        segments: vec![PathSegment {
            ident: "Option".to_string(),
            parameters: TypeParams::AngleBracketed(args.into_iter().map(|a| a.to_string()).collect()),
        }],
    }
}

fn arg(name: &str, ty: DeclaredType) -> FnInput {
    FnInput::Captured { pattern: ArgPattern::Ident(name.to_string()), ty }
}

fn greet() -> MethodSig {
    MethodSig {
        name: "greet".to_string(),
        has_type_params: false,
        inputs: vec![
            FnInput::SelfRef,
            arg("py", plain("Python")),
            arg("name", plain("Text")),
            arg("title", option_of(vec!["Text"])),
        ],
    }
}

#[test]
fn greet_exposes_required_then_optional() {
    let params = classify_signature(&greet()).unwrap();
    assert_eq!(params.len(), 2);
    assert_eq!(params[0].name, "name");
    assert_eq!(params[0].input, 2);
    assert_eq!(params[0].payload, None);
    assert_eq!(params[1].name, "title");
    assert_eq!(params[1].input, 3);
    assert_eq!(params[1].payload, Some("Text".to_string()));
    let table = descriptor_table(&params);
    assert_eq!(
        table,
        vec![
            ArgDescriptor { name: "name".to_string(), is_optional: false },
            ArgDescriptor { name: "title".to_string(), is_optional: true },
        ]
    );
}

#[test]
fn receiver_and_context_are_not_exposed() {
    let sig = MethodSig {
        name: "m".to_string(),
        has_type_params: false,
        inputs: vec![FnInput::SelfValue, arg("py", DeclaredType::Other)],
    };
    assert_eq!(classify_signature(&sig).unwrap().len(), 0);
    let none = MethodSig { name: "m".to_string(), has_type_params: false, inputs: vec![] };
    assert_eq!(classify_signature(&none).unwrap().len(), 0);
}

#[test]
fn table_keeps_declaration_order() {
    let sig = MethodSig {
        name: "m".to_string(),
        has_type_params: false,
        inputs: vec![
            arg("py", plain("Python")),
            arg("c", option_of(vec!["u8"])),
            arg("a", plain("u32")),
            arg("b", option_of(vec!["String"])),
        ],
    };
    let params = classify_signature(&sig).unwrap();
    let table = descriptor_table(&params);
    let names: Vec<&str> = table.iter().map(|d| d.name.as_str()).collect();
    assert_eq!(names, vec!["c", "a", "b"]);
    let flags: Vec<bool> = table.iter().map(|d| d.is_optional).collect();
    assert_eq!(flags, vec![true, false, true]);
}

#[test]
fn generic_method_is_rejected() {
    let mut sig = greet();
    sig.has_type_params = true;
    sig.inputs.push(FnInput::Ignored);
    assert_eq!(classify_signature(&sig).unwrap_err(), SignatureError::GenericMethod);
}

#[test]
fn ignored_argument_is_rejected() {
    let mut sig = greet();
    sig.inputs.push(FnInput::Ignored);
    assert_eq!(classify_signature(&sig).unwrap_err(), SignatureError::IgnoredArgument { input: 4 });
}

#[test]
fn destructured_argument_is_rejected() {
    let mut sig = greet();
    sig.inputs.insert(1, FnInput::Captured { pattern: ArgPattern::Other, ty: plain("T") });
    assert_eq!(
        classify_signature(&sig).unwrap_err(),
        SignatureError::UnsupportedPattern { input: 1 }
    );
}

#[test]
fn qualified_self_type_is_rejected() {
    let mut sig = greet();
    sig.inputs.push(arg(
        "q",
        DeclaredType::Path { qualified_self: true, segments: vec![] },
    ));
    assert_eq!(
        classify_signature(&sig).unwrap_err(),
        SignatureError::QualifiedSelfType { input: 4 }
    );
}

#[test]
fn non_path_type_is_rejected_after_the_context() {
    let mut sig = greet();
    sig.inputs[1] = arg("py", DeclaredType::Other);
    assert_eq!(classify_signature(&sig).unwrap().len(), 2);
    sig.inputs.push(arg("r", DeclaredType::Other));
    assert_eq!(
        classify_signature(&sig).unwrap_err(),
        SignatureError::UnsupportedType { input: 4 }
    );
}

#[test]
fn first_fault_wins() {
    let mut sig = greet();
    sig.inputs.push(arg("r", DeclaredType::Other));
    sig.inputs.push(FnInput::Ignored);
    assert_eq!(
        classify_signature(&sig).unwrap_err(),
        SignatureError::UnsupportedType { input: 4 }
    );
}

#[test]
fn option_type_shapes() {
    assert_eq!(classify_type(&option_of(vec!["u32"])), Ok(Some("u32".to_string())));
    assert_eq!(classify_type(&option_of(vec![])), Err(TypeFault::Unsupported));
    assert_eq!(classify_type(&option_of(vec!["A", "B"])), Err(TypeFault::Unsupported));
    let paren = DeclaredType::Path {
        qualified_self: false,
        segments: vec![PathSegment { ident: "Option".to_string(), parameters: TypeParams::Parenthesized }],
    };
    assert_eq!(classify_type(&paren), Err(TypeFault::Unsupported));
    assert_eq!(classify_type(&plain("Vec")), Ok(None));
    let nested = DeclaredType::Path {
        qualified_self: false,
        segments: vec![
            PathSegment { ident: "std".to_string(), parameters: TypeParams::AngleBracketed(vec![]) },
            PathSegment { ident: "option".to_string(), parameters: TypeParams::AngleBracketed(vec![]) },
            PathSegment {
                ident: "Option".to_string(),
                parameters: TypeParams::AngleBracketed(vec!["i64".to_string()]),
            },
        ],
    };
    assert_eq!(classify_type(&nested), Ok(Some("i64".to_string())));
    let empty = DeclaredType::Path { qualified_self: false, segments: vec![] };
    assert_eq!(classify_type(&empty), Ok(None));
    assert_eq!(classify_type(&DeclaredType::Other), Err(TypeFault::Unsupported));
}

#[test]
fn method_definition_for_greet() {
    let def = gen_py_method(&greet()).unwrap();
    assert_eq!(def.ml_name, "greet");
    assert_eq!(def.ml_flags, METH_VARARGS | METH_KEYWORDS);
    assert_eq!(def.ml_flags, 3);
    assert_eq!(def.params.len(), 2);
    assert_eq!(def.descriptors[1], ArgDescriptor { name: "title".to_string(), is_optional: true });
    let mut bad = greet();
    bad.has_type_params = true;
    assert_eq!(gen_py_method(&bad).unwrap_err(), SignatureError::GenericMethod);
}

#[test]
fn receiver_position_does_not_change_the_table() {
    let mut moved = greet();
    moved.inputs.remove(0);
    moved.inputs.push(FnInput::SelfValue);
    let a = gen_py_method(&greet()).unwrap();
    let b = gen_py_method(&moved).unwrap();
    assert_eq!(a.descriptors, b.descriptors);
    assert_eq!(b.params[0].input, 1);
}
