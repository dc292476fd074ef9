use toli::naming::{format_name_for_description, tool_struct_name};

#[test]
fn test_format_name_for_description_simple_snake_case() {
    assert_eq!(format_name_for_description("add_values"), "Add values");
}

#[test]
fn test_format_name_for_description_single_word() {
    assert_eq!(format_name_for_description("hello"), "Hello");
}

#[test]
fn test_format_name_for_description_multiple_underscores() {
    assert_eq!(
        format_name_for_description("some_long_name_with_numbers_123"),
        "Some long name with numbers 123"
    );
}

#[test]
fn test_format_name_for_description_leading_trailing_underscores() {
    assert_eq!(format_name_for_description("_test_function_"), "_test function ");
}

#[test]
fn test_format_name_for_description_empty_string() {
    assert_eq!(format_name_for_description(""), "");
}

#[test]
fn test_format_name_for_description_already_formatted() {
    assert_eq!(format_name_for_description("Already formatted"), "Already formatted");
}

#[test]
fn format_name_uppercases_beyond_ascii() {
    assert_eq!(format_name_for_description("\u{e9}t\u{e9}_fini"), "\u{c9}t\u{e9} fini");
    assert_eq!(format_name_for_description("\u{df}_x"), "SS x");
}

#[test]
fn format_name_twice_is_formatting_once() {
    let once = format_name_for_description("my_awesome_tool");
    assert_eq!(once, "My awesome tool");
    assert_eq!(format_name_for_description(&once), once);
}

#[test]
fn struct_name_of_snake_case_function() {
    assert_eq!(tool_struct_name("my_awesome_tool"), "MyAwesomeToolTool");
    assert_eq!(tool_struct_name("fetch_remote_data"), "FetchRemoteDataTool");
    assert_eq!(tool_struct_name("add"), "AddTool");
}

#[test]
fn struct_name_drops_repeated_and_outer_underscores() {
    assert_eq!(tool_struct_name("__a__b_"), "ABTool");
    assert_eq!(tool_struct_name(""), "Tool");
    assert_eq!(tool_struct_name("x_1y"), "X1yTool");
}
