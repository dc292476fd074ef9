use toli::definition::ArgumentType;
use toli::signature::{analyze_argument, analyze_parameters, GenericArgs, Parameter, SignatureError, TypeShape};
use toli::string_map::StringMap;

fn path(idents: &[&str], first: GenericArgs) -> TypeShape {
    TypeShape::Path { segments: idents.iter().map(|s| s.to_string()).collect(), first_arguments: first }
}

fn plain(ident: &str) -> TypeShape {
    path(&[ident], GenericArgs::NotAngleBracketed)
}

fn generic(ident: &str, inner: TypeShape) -> TypeShape {
    path(&[ident], GenericArgs::AngleBracketed(Some(Box::new(inner))))
}

fn no_descriptions() -> StringMap<String> {
    StringMap::new()
}

#[test]
fn scalar_argument() {
    let mut d = StringMap::new();
    d.insert("first_number".to_string(), "The initial value.".to_string());
    let plan = analyze_argument(Some("first_number".to_string()), &plain("i64"), &d).unwrap();
    assert_eq!(plan.name, "first_number");
    assert_eq!(plan.description, "The initial value.");
    assert_eq!(plan.arg_type, ArgumentType::I64);
    assert!(plan.required);
    assert!(plan.integer_conversion);
}

#[test]
fn optional_list_and_default_description() {
    let ty = generic("Option", generic("Vec", plain("String")));
    let plan = analyze_argument(Some("tag_names".to_string()), &ty, &no_descriptions()).unwrap();
    assert_eq!(plan.description, "Tag names");
    assert_eq!(plan.arg_type, ArgumentType::Vec(Box::new(ArgumentType::Text)));
    assert!(!plan.required);
    assert!(!plan.integer_conversion);

    let plan = analyze_argument(Some("delay".to_string()), &generic("Option", plain("u64")), &no_descriptions()).unwrap();
    assert_eq!(plan.arg_type, ArgumentType::U64);
    assert!(!plan.required);
    assert!(plan.integer_conversion);

    let plan = analyze_argument(Some("name".to_string()), &path(&["std", "string", "String"], GenericArgs::NotAngleBracketed), &no_descriptions()).unwrap();
    assert_eq!(plan.arg_type, ArgumentType::Text);
}

#[test]
fn unsupported_arguments() {
    assert_eq!(analyze_argument(None, &plain("i8"), &no_descriptions()).unwrap_err(), SignatureError::UnsupportedPattern);
    assert_eq!(
        analyze_argument(Some("x".to_string()), &plain("Option"), &no_descriptions()).unwrap_err(),
        SignatureError::OptionNotAngleBracketed
    );
    assert_eq!(
        analyze_argument(Some("x".to_string()), &path(&["Option"], GenericArgs::AngleBracketed(None)), &no_descriptions()).unwrap_err(),
        SignatureError::OptionWithoutType
    );
    assert_eq!(
        analyze_argument(Some("x".to_string()), &generic("Option", plain("Vec")), &no_descriptions()).unwrap_err(),
        SignatureError::VecNotAngleBracketed
    );
    assert_eq!(
        analyze_argument(Some("x".to_string()), &path(&["Vec"], GenericArgs::AngleBracketed(None)), &no_descriptions()).unwrap_err(),
        SignatureError::VecWithoutType
    );
    assert_eq!(
        analyze_argument(Some("x".to_string()), &generic("Vec", generic("Vec", plain("i8"))), &no_descriptions()).unwrap_err(),
        SignatureError::UnsupportedTypeName { name: "Vec".to_string(), depth: 1 }
    );
    assert_eq!(
        analyze_argument(Some("x".to_string()), &generic("Option", plain("usize")), &no_descriptions()).unwrap_err(),
        SignatureError::UnsupportedTypeName { name: "usize".to_string(), depth: 1 }
    );
    assert_eq!(
        analyze_argument(Some("x".to_string()), &generic("Option", generic("Vec", TypeShape::Other)), &no_descriptions()).unwrap_err(),
        SignatureError::UnsupportedType { depth: 2 }
    );
}

#[test]
fn parameters_in_order_with_receiver() {
    let params = vec![
        Parameter::Receiver,
        Parameter::Typed(Some("count".to_string()), plain("u8")),
        Parameter::Typed(Some("tags".to_string()), generic("Option", generic("Vec", plain("String")))),
    ];
    let plans = analyze_parameters(&params, &no_descriptions()).unwrap();
    assert_eq!(plans.len(), 3);
    assert!(plans[0].is_none());
    let count = plans[1].as_ref().unwrap();
    assert_eq!(count.name, "count");
    assert_eq!(count.description, "Count");
    assert_eq!(count.arg_type, ArgumentType::U8);
    assert!(count.required);
    let tags = plans[2].as_ref().unwrap();
    assert_eq!(tags.arg_type, ArgumentType::Vec(Box::new(ArgumentType::Text)));
    assert!(!tags.required);
    assert!(!tags.integer_conversion);
}

#[test]
fn parameters_stop_at_first_error() {
    let params = vec![
        Parameter::Typed(Some("a".to_string()), plain("i32")),
        Parameter::Typed(Some("b".to_string()), plain("char")),
        Parameter::Typed(None, plain("i32")),
    ];
    match analyze_parameters(&params, &no_descriptions()) {
        Err((index, SignatureError::UnsupportedTypeName { name, depth })) => {
            assert_eq!(index, 1);
            assert_eq!(name, "char");
            assert_eq!(depth, 0);
        }
        _ => panic!("expected the error of the second parameter"),
    }
    let params = vec![Parameter::Typed(None, plain("i32"))];
    assert!(matches!(analyze_parameters(&params, &no_descriptions()), Err((0, SignatureError::UnsupportedPattern))));
}
