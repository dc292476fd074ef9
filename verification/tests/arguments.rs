use toli::args::{
    convert_json_args, convert_single_arg, parse_json_args_internal, parse_single_arg,
    try_parse_json_args, ArgError, ValueFault,
};
use toli::data::{FloatSource, WrappedData, WrappedInt};
use toli::definition::{ArgumentType, IAArgument, IAToolDefinition};
use toli::json::{JsonNumber, JsonValue};
use toli::string_map::StringMap;

fn arg(name: &str, arg_type: ArgumentType, required: bool) -> IAArgument {
    IAArgument { name: name.to_string(), description: String::new(), arg_type, required }
}

fn definition(args: Vec<IAArgument>) -> IAToolDefinition {
    let mut arguments = StringMap::new();
    for a in args {
        arguments.insert(a.name.clone(), a);
    }
    IAToolDefinition { name: "t".to_string(), description: String::new(), arguments }
}

fn object(members: Vec<(&str, JsonValue)>) -> JsonValue {
    JsonValue::Object(members.into_iter().map(|(k, v)| (k.to_string(), v)).collect())
}

fn text(s: &str) -> JsonValue {
    JsonValue::String(s.to_string())
}

fn integer(n: i64) -> JsonValue {
    if n >= 0 {
        JsonValue::Number(JsonNumber::PosInt(n as u64))
    } else {
        JsonValue::Number(JsonNumber::NegInt(n))
    }
}

fn number_of(d: &WrappedData) -> WrappedInt {
    match d {
        WrappedData::Number(w) => *w,
        other => panic!("not a number: {:?}", other),
    }
}

#[test]
fn all_arguments_convert() {
    let def = definition(vec![
        arg("first_number", ArgumentType::I64, true),
        arg("second_number", ArgumentType::I64, true),
        arg("operation_type", ArgumentType::Text, true),
        arg("enable_logging", ArgumentType::Boolean, true),
    ]);
    let json = object(vec![
        ("first_number", integer(10)),
        ("second_number", text("5")),
        ("operation_type", text("add")),
        ("enable_logging", JsonValue::Bool(true)),
    ]);
    let parsed = convert_json_args(&def, &json).unwrap();
    assert_eq!(parsed.len(), 4);
    assert_eq!(parsed.key_at(0), "first_number");
    assert_eq!(number_of(parsed.value_at(0)), WrappedInt::I64(10));
    assert_eq!(number_of(parsed.value_at(1)), WrappedInt::I64(5));
    assert!(matches!(parsed.value_at(2), WrappedData::Text(s) if s == "add"));
    assert!(matches!(parsed.value_at(3), WrappedData::Boolean(true)));
}

#[test]
fn optional_missing_or_null_is_absent() {
    let def = definition(vec![
        arg("query", ArgumentType::Text, true),
        arg("delay_ms", ArgumentType::U64, false),
        arg("retries", ArgumentType::U8, false),
    ]);
    let json = object(vec![("query", text("rust")), ("retries", JsonValue::Null)]);
    let parsed = convert_json_args(&def, &json).unwrap();
    assert!(matches!(parsed.get(&"delay_ms".to_string()), Some(WrappedData::Absent)));
    assert!(matches!(parsed.get(&"retries".to_string()), Some(WrappedData::Absent)));
    let json = object(vec![("query", text("rust")), ("delay_ms", integer(200))]);
    let parsed = convert_json_args(&def, &json).unwrap();
    assert_eq!(number_of(parsed.get(&"delay_ms".to_string()).unwrap()), WrappedInt::U64(200));
}

#[test]
fn required_missing_or_null_fails() {
    let def = definition(vec![arg("a", ArgumentType::I32, true), arg("b", ArgumentType::I32, true)]);
    match convert_json_args(&def, &object(vec![("a", integer(1))])) {
        Err(ArgError::MissingRequired(n)) => assert_eq!(n, "b"),
        other => panic!("{:?}", other),
    }
    match convert_json_args(&def, &object(vec![("a", JsonValue::Null), ("b", integer(2))])) {
        Err(ArgError::NullRequired(n)) => assert_eq!(n, "a"),
        other => panic!("{:?}", other),
    }
    // the first failing argument in the definition's order gives the error
    match convert_json_args(&def, &object(vec![])) {
        Err(ArgError::MissingRequired(n)) => assert_eq!(n, "a"),
        other => panic!("{:?}", other),
    }
}

#[test]
fn arguments_must_be_an_object() {
    let def = definition(vec![]);
    assert!(matches!(convert_json_args(&def, &JsonValue::Array(vec![])), Err(ArgError::NotAnObject)));
    assert!(matches!(convert_json_args(&def, &text("{}")), Err(ArgError::NotAnObject)));
    assert_eq!(convert_json_args(&def, &object(vec![("extra", integer(1))])).unwrap().len(), 0);
}

#[test]
fn integer_ranges_and_texts() {
    assert_eq!(number_of(&convert_single_arg(&ArgumentType::I8, &integer(-128)).unwrap()), WrappedInt::I8(-128));
    assert_eq!(convert_single_arg(&ArgumentType::I8, &integer(128)).unwrap_err(), (ValueFault::OutOfRange, vec![]));
    assert_eq!(convert_single_arg(&ArgumentType::U8, &integer(-1)).unwrap_err(), (ValueFault::WrongKind, vec![]));
    assert_eq!(number_of(&convert_single_arg(&ArgumentType::U16, &text("+65535")).unwrap()), WrappedInt::U16(65535));
    assert_eq!(convert_single_arg(&ArgumentType::U16, &text("65536")).unwrap_err(), (ValueFault::BadText, vec![]));
    assert_eq!(convert_single_arg(&ArgumentType::U32, &text("-1")).unwrap_err(), (ValueFault::BadText, vec![]));
    assert_eq!(number_of(&convert_single_arg(&ArgumentType::I32, &text("-42")).unwrap()), WrappedInt::I32(-42));
    assert_eq!(
        number_of(&convert_single_arg(&ArgumentType::U64, &JsonValue::Number(JsonNumber::PosInt(u64::MAX))).unwrap()),
        WrappedInt::U64(u64::MAX)
    );
    // an integer above i64::MAX is no i64, so it does not count as a number for I64
    assert_eq!(
        convert_single_arg(&ArgumentType::I64, &JsonValue::Number(JsonNumber::PosInt(u64::MAX))).unwrap_err(),
        (ValueFault::WrongKind, vec![])
    );
    let three = 3.0f64.to_bits();
    assert_eq!(
        convert_single_arg(&ArgumentType::I16, &JsonValue::Number(JsonNumber::Float(three))).unwrap_err(),
        (ValueFault::WrongKind, vec![])
    );
    assert_eq!(convert_single_arg(&ArgumentType::I16, &JsonValue::Bool(true)).unwrap_err(), (ValueFault::WrongKind, vec![]));
}

#[test]
fn text_boolean_and_float() {
    assert_eq!(convert_single_arg(&ArgumentType::Text, &integer(1)).unwrap_err(), (ValueFault::WrongKind, vec![]));
    assert!(matches!(convert_single_arg(&ArgumentType::Boolean, &text("false")), Ok(WrappedData::Boolean(false))));
    assert_eq!(convert_single_arg(&ArgumentType::Boolean, &text("yes")).unwrap_err(), (ValueFault::BadText, vec![]));
    assert_eq!(convert_single_arg(&ArgumentType::Boolean, &integer(1)).unwrap_err(), (ValueFault::WrongKind, vec![]));
    assert!(matches!(
        convert_single_arg(&ArgumentType::Float, &integer(2)),
        Ok(WrappedData::Float(FloatSource::Number(JsonNumber::PosInt(2))))
    ));
    assert!(matches!(
        convert_single_arg(&ArgumentType::Float, &text("2.5e3")),
        Ok(WrappedData::Float(FloatSource::Text(s))) if s == "2.5e3"
    ));
    assert_eq!(convert_single_arg(&ArgumentType::Float, &text("2,5")).unwrap_err(), (ValueFault::BadText, vec![]));
    assert_eq!(convert_single_arg(&ArgumentType::Float, &JsonValue::Null).unwrap_err(), (ValueFault::WrongKind, vec![]));
}

#[test]
fn lists_convert_item_by_item() {
    let t = ArgumentType::Vec(Box::new(ArgumentType::U8));
    let ok = convert_single_arg(&t, &JsonValue::Array(vec![integer(1), text("2"), integer(255)])).unwrap();
    match ok {
        WrappedData::Vec(items) => {
            assert_eq!(items.len(), 3);
            assert_eq!(number_of(&items[1]), WrappedInt::U8(2));
        },
        other => panic!("{:?}", other),
    }
    assert_eq!(
        convert_single_arg(&t, &JsonValue::Array(vec![integer(1), integer(300), text("x")])).unwrap_err(),
        (ValueFault::OutOfRange, vec![1])
    );
    assert_eq!(convert_single_arg(&t, &integer(1)).unwrap_err(), (ValueFault::WrongKind, vec![]));
    let nested = ArgumentType::Vec(Box::new(ArgumentType::Vec(Box::new(ArgumentType::Boolean))));
    let value = JsonValue::Array(vec![
        JsonValue::Array(vec![]),
        JsonValue::Array(vec![JsonValue::Bool(true), text("maybe")]),
    ]);
    assert_eq!(convert_single_arg(&nested, &value).unwrap_err(), (ValueFault::BadText, vec![1, 1]));
}

#[test]
fn invalid_value_names_the_argument_and_the_path() {
    let def = definition(vec![arg("xs", ArgumentType::Vec(Box::new(ArgumentType::I8)), false)]);
    let json = object(vec![("xs", JsonValue::Array(vec![integer(1), integer(2), text("-200")]))]);
    match convert_json_args(&def, &json) {
        Err(ArgError::InvalidValue { name, fault, path }) => {
            assert_eq!(name, "xs");
            assert_eq!(fault, ValueFault::BadText);
            assert_eq!(path, vec![2]);
        },
        other => panic!("{:?}", other),
    }
}

#[test]
fn parsed_values_convert_to_declared_types() {
    let def = definition(vec![
        arg("small", ArgumentType::I8, true),
        arg("counts", ArgumentType::Vec(Box::new(ArgumentType::U16)), true),
        arg("names", ArgumentType::Vec(Box::new(ArgumentType::Text)), true),
        arg("flag", ArgumentType::Boolean, false),
        arg("label", ArgumentType::Text, false),
    ]);
    let json = object(vec![
        ("small", text("-12")),
        ("counts", JsonValue::Array(vec![integer(1), text("65535")])),
        ("names", JsonValue::Array(vec![text("a"), text("b")])),
        ("flag", text("false")),
    ]);
    let parsed = convert_json_args(&def, &json).unwrap();
    let mut entries = parsed.into_entries().into_iter();
    let (_, small) = entries.next().unwrap();
    assert_eq!(i8::try_from(number_of(&small)), Ok(-12));
    let (_, counts) = entries.next().unwrap();
    assert_eq!(toli::data::u16_list_from(counts), Ok(vec![1u16, 65535]));
    let (_, names) = entries.next().unwrap();
    assert_eq!(toli::data::text_list_from(names), Ok(vec!["a".to_string(), "b".to_string()]));
    let (_, flag) = entries.next().unwrap();
    assert_eq!(bool::try_from(flag), Ok(false));
    let (_, label) = entries.next().unwrap();
    assert!(matches!(label, WrappedData::Absent));
}

#[test]
fn single_argument_that_converts() {
    assert_eq!(number_of(&parse_single_arg(&ArgumentType::I32, &text("42"))), WrappedInt::I32(42));
    assert!(matches!(parse_single_arg(&ArgumentType::Boolean, &text("true")), WrappedData::Boolean(true)));
    let names = parse_single_arg(&ArgumentType::Vec(Box::new(ArgumentType::Text)), &JsonValue::Array(vec![text("a"), text("b")]));
    assert_eq!(toli::data::text_list_from(names), Ok(vec!["a".to_string(), "b".to_string()]));
    assert_eq!(convert_single_arg(&ArgumentType::I32, &text("4x")).unwrap_err(), (ValueFault::BadText, vec![]));
}

#[test]
fn arguments_from_json_text() {
    let def = definition(vec![
        arg("count", ArgumentType::U8, true),
        arg("label", ArgumentType::Text, false),
        arg("ratio", ArgumentType::Float, false),
    ]);
    let parsed = parse_json_args_internal(&def, "{\"count\": \"7\", \"ratio\": 0.5}");
    assert_eq!(parsed.len(), 3);
    assert_eq!(number_of(parsed.value_at(0)), WrappedInt::U8(7));
    assert!(matches!(parsed.value_at(1), WrappedData::Absent));
    assert!(matches!(
        parsed.value_at(2),
        WrappedData::Float(FloatSource::Number(JsonNumber::Float(bits))) if *bits == 0.5f64.to_bits()
    ));
    assert_eq!(number_of(try_parse_json_args(&def, "{\"count\": 255}").unwrap().value_at(0)), WrappedInt::U8(255));
}

#[test]
fn json_text_errors() {
    let def = definition(vec![arg("count", ArgumentType::U8, true)]);
    assert!(matches!(try_parse_json_args(&def, "{"), Err(ArgError::MalformedJson)));
    assert!(matches!(try_parse_json_args(&definition(vec![]), "not json"), Err(ArgError::MalformedJson)));
    assert!(matches!(try_parse_json_args(&def, "[1]"), Err(ArgError::NotAnObject)));
    assert!(matches!(try_parse_json_args(&def, "null"), Err(ArgError::NotAnObject)));
    assert!(matches!(try_parse_json_args(&def, "{}"), Err(ArgError::MissingRequired(n)) if n == "count"));
    assert!(matches!(try_parse_json_args(&def, "{\"count\": null}"), Err(ArgError::NullRequired(n)) if n == "count"));
    match try_parse_json_args(&def, "{\"count\": 300}") {
        Err(ArgError::InvalidValue { name, fault, path }) => {
            assert_eq!(name, "count");
            assert_eq!(fault, ValueFault::OutOfRange);
            assert!(path.is_empty());
        }
        other => panic!("unexpected: {:?}", other),
    }
}
