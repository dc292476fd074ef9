use toli::definition::{IAToolDefinition};
use toli::open_ai::IADescriptor;
use toli::string_map::StringMap;
use toli::tool_set::{serialize_tool_result, tool_not_found, Dispatch, ToolSet};

#[derive(Clone, Debug, PartialEq)]
struct NameOnly(String);

impl IADescriptor for NameOnly {
    fn from_ai_tool_definition(definition: IAToolDefinition) -> Self {
        NameOnly(definition.name)
    }
}

fn definition(name: &str) -> IAToolDefinition {
    IAToolDefinition { name: name.to_string(), description: String::new(), arguments: StringMap::new() }
}

#[test]
fn dispatch_finds_added_tools() {
    let mut set: ToolSet<NameOnly, u32, &'static str> = ToolSet::new();
    set.add_tool(definition("add"), 1);
    set.add_async_tool(definition("fetch"), "fetch handler");
    assert!(matches!(set.dispatch(&"add".to_string()), Dispatch::Sync(1)));
    assert!(matches!(set.dispatch(&"fetch".to_string()), Dispatch::Async(&"fetch handler")));
    assert!(matches!(set.dispatch(&"missing".to_string()), Dispatch::NotFound));
}

#[test]
fn synchronous_handler_wins_over_asynchronous() {
    let mut set: ToolSet<NameOnly, u32, u32> = ToolSet::new();
    set.add_async_tool(definition("both"), 20);
    set.add_tool(definition("both"), 10);
    assert!(matches!(set.dispatch(&"both".to_string()), Dispatch::Sync(10)));
    assert_eq!(set.get_tools(), vec![NameOnly("both".to_string())]);
}

#[test]
fn adding_again_replaces() {
    let mut set: ToolSet<NameOnly, u32, u32> = ToolSet::new();
    set.add_tool(definition("a"), 1);
    set.add_tool(definition("b"), 2);
    set.add_tool(definition("a"), 3);
    assert!(matches!(set.dispatch(&"a".to_string()), Dispatch::Sync(3)));
    assert_eq!(set.get_tools(), vec![NameOnly("a".to_string()), NameOnly("b".to_string())]);
}

#[test]
fn messages() {
    assert_eq!(tool_not_found(), "{ \"error\": \"Tool not found or cannot be dispatched\"}");
    assert_eq!(serialize_tool_result(Some("42".to_string())), Ok("42".to_string()));
    assert_eq!(
        serialize_tool_result(None),
        Err("{ \"error\": \"Cannot serialize tool result\"}".to_string())
    );
}
