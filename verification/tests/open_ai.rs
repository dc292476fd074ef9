use toli::definition::{ArgumentType, IAArgument, IAToolDefinition};
use toli::open_ai::{
    get_optional_description, IADescriptor, OpenAIFunctionTool, OpenAIParameterDescriptor,
    OpenAIPropertyDescriptor, OpenAIToolDescriptor,
};
use toli::string_map::StringMap;

fn arg(name: &str, description: &str, arg_type: ArgumentType, required: bool) -> IAArgument {
    IAArgument { name: name.to_string(), description: description.to_string(), arg_type, required }
}

fn arguments(args: Vec<IAArgument>) -> StringMap<IAArgument> {
    let mut m = StringMap::new();
    for a in args {
        m.insert(a.name.clone(), a);
    }
    m
}

#[test]
fn optional_description() {
    assert_eq!(get_optional_description(String::new()), None);
    assert_eq!(get_optional_description("x".to_string()), Some("x".to_string()));
    assert_eq!(get_optional_description(" ".to_string()), Some(" ".to_string()));
}

#[test]
fn property_types() {
    let cases = [
        (ArgumentType::I8, "integer"),
        (ArgumentType::U64, "integer"),
        (ArgumentType::Text, "string"),
        (ArgumentType::Boolean, "boolean"),
        (ArgumentType::Float, "number"),
    ];
    for (t, expected) in cases {
        let p = OpenAIPropertyDescriptor::new(arg("a", "An a.", t, true));
        assert_eq!(p.property_type(), expected);
        assert_eq!(p.description(), &Some("An a.".to_string()));
        assert!(p.items().is_none());
    }
}

#[test]
fn array_property_describes_its_items() {
    let t = ArgumentType::Vec(Box::new(ArgumentType::Vec(Box::new(ArgumentType::U16))));
    let p = OpenAIPropertyDescriptor::new(arg("grid", "", t, false));
    assert_eq!(p.property_type(), "array");
    assert_eq!(p.description(), &None);
    let inner = p.items().as_ref().unwrap();
    assert_eq!(inner.property_type(), "array");
    assert_eq!(inner.description(), &None);
    let innermost = inner.items().as_ref().unwrap();
    assert_eq!(innermost.property_type(), "integer");
    assert!(innermost.items().is_none());
}

#[test]
fn parameters_list_properties_and_required_names() {
    let p = OpenAIParameterDescriptor::new(arguments(vec![
        arg("query", "The query.", ArgumentType::Text, true),
        arg("delay_ms", "Delay.", ArgumentType::U64, false),
        arg("limit", "", ArgumentType::U8, true),
    ]));
    assert_eq!(p.parameter_type(), "object");
    assert_eq!(p.properties().len(), 3);
    assert_eq!(p.properties().key_at(1), "delay_ms");
    assert_eq!(p.properties().value_at(1).property_type(), "integer");
    assert_eq!(p.required(), &Some(vec!["query".to_string(), "limit".to_string()]));

    let q = OpenAIParameterDescriptor::new(arguments(vec![arg("x", "", ArgumentType::Float, false)]));
    assert_eq!(q.required(), &None);
}

#[test]
fn descriptor_from_definition() {
    let def = IAToolDefinition {
        name: "fetch_remote_data".to_string(),
        description: "Fetches data.".to_string(),
        arguments: arguments(vec![arg("query", "The query.", ArgumentType::Text, true)]),
    };
    let d = OpenAIToolDescriptor::from_ai_tool_definition(def);
    assert_eq!(d.name(), "fetch_remote_data");
    assert_eq!(d.description(), &Some("Fetches data.".to_string()));
    let params = d.parameters().as_ref().unwrap();
    assert_eq!(params.required(), &Some(vec!["query".to_string()]));

    let bare = IAToolDefinition { name: "ping".to_string(), description: String::new(), arguments: StringMap::new() };
    let d = OpenAIToolDescriptor::from_ai_tool_definition(bare);
    assert_eq!(d.description(), &None);
    assert!(d.parameters().is_none());

    let tool = OpenAIFunctionTool::new(d);
    assert_eq!(tool.tool_type(), "function");
    assert_eq!(tool.function().name(), "ping");
}

#[test]
fn tool_set_keeps_descriptor_of_added_tool() {
    let definition = IAToolDefinition {
        name: "add_numbers".to_string(),
        description: "Adds two numbers.".to_string(),
        arguments: arguments(vec![
            arg("a", "The first number.", ArgumentType::I32, true),
            arg("b", "", ArgumentType::Vec(Box::new(ArgumentType::Float)), false),
        ]),
    };
    let mut set: toli::tool_set::ToolSet<OpenAIToolDescriptor, u8, u8> = toli::tool_set::ToolSet::new();
    set.add_tool(definition, 0);
    let tools = set.get_tools();
    assert_eq!(tools.len(), 1);
    let d = &tools[0];
    assert_eq!(d.name(), "add_numbers");
    assert_eq!(d.description(), &Some("Adds two numbers.".to_string()));
    let p = d.parameters().as_ref().unwrap();
    assert_eq!(p.parameter_type(), "object");
    assert_eq!(p.required(), &Some(vec!["a".to_string()]));
    assert_eq!(p.properties().len(), 2);
    let b = p.properties().get(&"b".to_string()).unwrap();
    assert_eq!(b.property_type(), "array");
    assert_eq!(b.description(), &None);
    assert_eq!(b.items().as_ref().unwrap().property_type(), "number");
}

#[test]
fn cloned_descriptor_is_equal() {
    let definition = IAToolDefinition {
        name: "t".to_string(),
        description: String::new(),
        arguments: arguments(vec![arg("xs", "Items.", ArgumentType::Vec(Box::new(ArgumentType::U8)), true)]),
    };
    let d = OpenAIToolDescriptor::from_definition(definition);
    let c = d.clone();
    assert_eq!(format!("{:?}", c), format!("{:?}", d));
}
