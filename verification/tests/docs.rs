use toli::docs::parse_function_docs;

fn lines(v: &[&str]) -> Vec<String> {
    v.iter().map(|s| s.to_string()).collect()
}

#[test]
fn description_and_parameters_from_doc_comment() {
    let docs = lines(&[
        " This is a comprehensive description of my awesome tool.",
        " It performs a calculation based on two numbers and returns a string.",
        "",
        " This description can span multiple lines.",
        "",
        " Parameters:",
        " - first_number: The initial integer value for the calculation.",
        " - second_number: The second integer value to be added.",
        " - operation_type: The type of operation to perform (e.g., \"add\", \"subtract\").",
        "",
        " # Panics",
        " This function will panic if `operation_type` is not recognized.",
        "",
        " # Errors",
        " This function does not return explicit errors, but panics on invalid input.",
    ]);
    let (description, arguments) = parse_function_docs(&docs, "my_awesome_tool");
    assert_eq!(
        description,
        "This is a comprehensive description of my awesome tool. It performs a calculation based on two numbers and returns a string. This description can span multiple lines."
    );
    assert_eq!(arguments.len(), 3);
    assert_eq!(
        arguments.get(&"first_number".to_string()),
        Some(&"The initial integer value for the calculation.".to_string())
    );
    assert_eq!(
        arguments.get(&"operation_type".to_string()),
        Some(&"The type of operation to perform (e.g., \"add\", \"subtract\").".to_string())
    );
    assert_eq!(arguments.get(&"enable_logging".to_string()), None);
}

#[test]
fn empty_doc_comment_gives_formatted_name() {
    let (description, arguments) = parse_function_docs(&Vec::new(), "add_values");
    assert_eq!(description, "Add values");
    assert!(arguments.is_empty());
}

#[test]
fn only_ignored_sections_give_formatted_name() {
    let docs = lines(&[" # Examples", " let x = add(1, 2);", " # Safety", " Safe."]);
    let (description, _) = parse_function_docs(&docs, "add");
    assert_eq!(description, "Add");
}

#[test]
fn parameters_section_ends_at_an_ignored_header_but_not_at_text() {
    let docs = lines(&[
        " Parameters:",
        " - a: First.",
        " trailing words stay out of the description",
        " -b: no space after the dash",
        " - c no colon",
        " # Examples",
        " - d: inside an example",
        " Parameters:",
        " -   e  :   spaced   ",
    ]);
    let (description, arguments) = parse_function_docs(&docs, "f");
    assert_eq!(description, "F");
    assert_eq!(arguments.len(), 2);
    assert_eq!(arguments.key_at(0), "a");
    assert_eq!(arguments.value_at(0), "First.");
    assert_eq!(arguments.key_at(1), "e");
    assert_eq!(arguments.value_at(1), "spaced");
}

#[test]
fn later_listing_of_a_name_wins() {
    let docs = lines(&[" Parameters:", " - x: first", " - y: other", " - x: second"]);
    let (_, arguments) = parse_function_docs(&docs, "f");
    assert_eq!(arguments.len(), 2);
    assert_eq!(arguments.key_at(0), "x");
    assert_eq!(arguments.value_at(0), "second");
}

#[test]
fn values_with_line_breaks_and_carriage_returns() {
    let docs = lines(&[" First line.\r\n Second line.", "\t Third line.  "]);
    let (description, _) = parse_function_docs(&docs, "f");
    assert_eq!(description, "First line. Second line. Third line.");
}

#[test]
fn colon_splits_at_first_colon() {
    let docs = lines(&[" Parameters:", " - url: a link like http://x:80"]);
    let (_, arguments) = parse_function_docs(&docs, "f");
    assert_eq!(arguments.value_at(0), "a link like http://x:80");
}

#[test]
fn ignored_section_ends_at_the_next_heading() {
    let docs = lines(&[" Intro.", " # Examples", " x", " # Notes", " More."]);
    let (description, _) = parse_function_docs(&docs, "f");
    assert_eq!(description, "Intro. # Notes More.");
}

#[test]
fn code_in_examples_stays_out() {
    let docs = lines(&[
        " Adds.",
        " # Examples",
        " ```",
        " # use toli::tool;",
        " #[tool]",
        " fn add() {}",
        " ```",
        " #[tool] outside a block is no heading",
        " ## Notes",
        " Kept.",
    ]);
    let (description, _) = parse_function_docs(&docs, "add");
    assert_eq!(description, "Adds. ## Notes Kept.");
    let (description, _) = parse_function_docs(&lines(&[" # Examples", " #[tool]"]), "add");
    assert_eq!(description, "Add");
}
