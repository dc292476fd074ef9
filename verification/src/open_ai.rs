//! Tool descriptors in the OpenAI function-calling format, which describes a
//! tool's parameters with a JSON Schema.

use vstd::prelude::*;
use crate::definition::{is_integer_type, ArgumentType, IAArgument, IAToolDefinition};
use crate::string_map::{keys_distinct, StringMap};

verus! {

/// A type of tool descriptor that can be built from a tool definition.
pub trait IADescriptor: Sized {
    /// The descriptor of the tool that `definition` defines.
    fn from_ai_tool_definition(definition: IAToolDefinition) -> Self;
}

/// `None` for an empty text, the text otherwise.
pub open spec fn optional_text(s: Seq<char>) -> Option<Seq<char>> {
    if s.len() == 0 {
        None
    } else {
        Some(s)
    }
}

/// `None` for an empty description, the description otherwise.
pub fn get_optional_description(desc: String) -> (r: Option<String>)
    ensures
        desc@.len() == 0 ==> r is None,
        desc@.len() > 0 ==> r == Some(desc),
{
    if desc.as_str().is_empty() {
        None
    } else {
        Some(desc)
    }
}

/// A function tool in the OpenAI format: the type `function` and the
/// function's descriptor.
#[derive(Debug)]
pub struct OpenAIFunctionTool {
    tool_type: String,
    function: OpenAIToolDescriptor,
}

/// The descriptor of a function: its name, its description where it has
/// one, and its parameters where it has any.
#[derive(Debug)]
pub struct OpenAIToolDescriptor {
    name: String,
    description: Option<String>,
    parameters: Option<OpenAIParameterDescriptor>,
}

/// The parameters of a function as a JSON Schema object: a property for
/// each argument, and the names of the required ones where there are any.
#[derive(Debug)]
pub struct OpenAIParameterDescriptor {
    parameter_type: String,
    properties: StringMap<OpenAIPropertyDescriptor>,
    required: Option<Vec<String>>,
}

/// The JSON Schema of one argument: its type, its description where it has
/// one, and the schema of its items where it is an array.
#[derive(Debug)]
pub struct OpenAIPropertyDescriptor {
    property_type: String,
    description: Option<String>,
    items: Option<Box<OpenAIPropertyDescriptor>>,
}

/// The model of a property schema.
pub struct PropertyModel {
    pub property_type: Seq<char>,
    pub description: Option<Seq<char>>,
    pub items: Option<Box<PropertyModel>>,
}

/// The model of the parameters of a function.
pub struct ParametersModel {
    pub parameter_type: Seq<char>,
    pub properties: Seq<(Seq<char>, PropertyModel)>,
    pub required: Option<Seq<Seq<char>>>,
}

/// The model of a function's descriptor.
pub struct DescriptorModel {
    pub name: Seq<char>,
    pub description: Option<Seq<char>>,
    pub parameters: Option<ParametersModel>,
}

/// The model of a function tool.
pub struct FunctionToolModel {
    pub tool_type: Seq<char>,
    pub function: DescriptorModel,
}

/// The JSON Schema type of an argument type.
pub open spec fn schema_type(t: ArgumentType) -> Seq<char> {
    if is_integer_type(t) {
        "integer"@
    } else {
        match t {
            ArgumentType::Text => "string"@,
            ArgumentType::Boolean => "boolean"@,
            ArgumentType::Float => "number"@,
            _ => "array"@,
        }
    }
}

/// The schema of an argument of type `t` with description `description`:
/// a list's items get the schema of its element type, without description.
pub open spec fn property_for(t: ArgumentType, description: Seq<char>) -> PropertyModel
    decreases t,
{
    PropertyModel {
        property_type: schema_type(t),
        description: optional_text(description),
        items: match t {
            ArgumentType::Vec(inner) => Some(Box::new(property_for(*inner, seq![]))),
            _ => None,
        },
    }
}

/// The view of an optional string.
pub open spec fn optional_view(s: Option<String>) -> Option<Seq<char>> {
    match s {
        Some(t) => Some(t@),
        None => None,
    }
}

/// The model of a property descriptor.
pub closed spec fn property_model(p: OpenAIPropertyDescriptor) -> PropertyModel
    decreases p,
{
    PropertyModel {
        property_type: p.property_type@,
        description: optional_view(p.description),
        items: match p.items {
            Some(b) => Some(Box::new(property_model(*b))),
            None => None,
        },
    }
}

/// The names of the required arguments, in order.
pub open spec fn required_names(entries: Seq<(Seq<char>, IAArgument)>) -> Seq<Seq<char>>
    decreases entries.len(),
{
    if entries.len() == 0 {
        seq![]
    } else if entries.last().1.required {
        required_names(entries.drop_last()).push(entries.last().0)
    } else {
        required_names(entries.drop_last())
    }
}

/// The views of a sequence of strings.
pub open spec fn name_views(v: Seq<String>) -> Seq<Seq<char>> {
    v.map_values(|s: String| s@)
}

/// The property models of a map of property descriptors.
pub open spec fn property_entries(s: Seq<(Seq<char>, OpenAIPropertyDescriptor)>) -> Seq<
    (Seq<char>, PropertyModel),
> {
    s.map_values(|e: (Seq<char>, OpenAIPropertyDescriptor)| (e.0, e.1@))
}

/// The parameters describe exactly the arguments `entries`: an `object`
/// with a property for each argument, in order, and the names of the
/// required arguments where there are any.
pub open spec fn describes_arguments(p: ParametersModel, entries: Seq<(Seq<char>, IAArgument)>) -> bool {
    &&& p.parameter_type == "object"@
    &&& p.properties.len() == entries.len()
    &&& forall|i: int|
        0 <= i < entries.len() ==> (#[trigger] p.properties[i]).0 == entries[i].0
            && p.properties[i].1 == property_for(entries[i].1.arg_type, entries[i].1.description@)
    &&& match p.required {
        None => required_names(entries).len() == 0,
        Some(v) => required_names(entries).len() > 0 && v == required_names(entries),
    }
}

/// The descriptor describes the tool that `definition` defines.
pub open spec fn describes_tool(d: DescriptorModel, definition: IAToolDefinition) -> bool {
    &&& d.name == definition.name@
    &&& d.description == optional_text(definition.description@)
    &&& match d.parameters {
        None => definition.arguments@.len() == 0,
        Some(p) => definition.arguments@.len() > 0 && describes_arguments(p, definition.arguments@),
    }
}

impl View for OpenAIPropertyDescriptor {
    type V = PropertyModel;

    closed spec fn view(&self) -> PropertyModel {
        property_model(*self)
    }
}

impl View for OpenAIParameterDescriptor {
    type V = ParametersModel;

    closed spec fn view(&self) -> ParametersModel {
        ParametersModel {
            parameter_type: self.parameter_type@,
            properties: property_entries(self.properties@),
            required: match self.required {
                Some(v) => Some(name_views(v@)),
                None => None,
            },
        }
    }
}

impl View for OpenAIToolDescriptor {
    type V = DescriptorModel;

    closed spec fn view(&self) -> DescriptorModel {
        DescriptorModel {
            name: self.name@,
            description: optional_view(self.description),
            parameters: match self.parameters {
                Some(p) => Some(p@),
                None => None,
            },
        }
    }
}

impl View for OpenAIFunctionTool {
    type V = FunctionToolModel;

    closed spec fn view(&self) -> FunctionToolModel {
        FunctionToolModel { tool_type: self.tool_type@, function: self.function@ }
    }
}

fn property_from(t: &ArgumentType, description: Option<String>) -> (r: OpenAIPropertyDescriptor)
    ensures
        r.property_type@ == schema_type(*t),
        optional_view(r.description) == optional_view(description),
        match *t {
            ArgumentType::Vec(inner) => r.items is Some && property_model(*r.items->Some_0)
                == property_for(*inner, seq![]),
            _ => r.items is None,
        },
    decreases t,
{
    match t {
        ArgumentType::I8 | ArgumentType::U8 | ArgumentType::I16 | ArgumentType::U16
        | ArgumentType::I32 | ArgumentType::U32 | ArgumentType::I64 | ArgumentType::U64 => {
            OpenAIPropertyDescriptor {
                property_type: "integer".to_string(),
                description,
                items: None,
            }
        },
        ArgumentType::Text => OpenAIPropertyDescriptor {
            property_type: "string".to_string(),
            description,
            items: None,
        },
        ArgumentType::Boolean => OpenAIPropertyDescriptor {
            property_type: "boolean".to_string(),
            description,
            items: None,
        },
        ArgumentType::Float => OpenAIPropertyDescriptor {
            property_type: "number".to_string(),
            description,
            items: None,
        },
        ArgumentType::Vec(inner) => {
            let item = property_from(&**inner, None);
            proof {
                lemma_property_from_model(&**inner, None, item);
            }
            OpenAIPropertyDescriptor {
                property_type: "array".to_string(),
                description,
                items: Some(Box::new(item)),
            }
        },
    }
}

proof fn lemma_property_from_model(
    t: &ArgumentType,
    description: Option<String>,
    r: OpenAIPropertyDescriptor,
)
    requires
        r.property_type@ == schema_type(*t),
        optional_view(r.description) == optional_view(description),
        match *t {
            ArgumentType::Vec(inner) => r.items is Some && property_model(*r.items->Some_0)
                == property_for(*inner, seq![]),
            _ => r.items is None,
        },
        optional_view(description) == optional_text(
            match description {
                Some(d) => d@,
                None => seq![],
            },
        ),
    ensures
        property_model(r) == property_for(
            *t,
            match description {
                Some(d) => d@,
                None => seq![],
            },
        ),
{
}

impl Clone for OpenAIPropertyDescriptor {
    /// An equal copy.
    fn clone(&self) -> (r: Self)
        ensures
            r@ == self@,
        decreases self,
    {
        let description = match &self.description {
            Some(d) => Some(d.clone()),
            None => None,
        };
        let items = match &self.items {
            Some(b) => Some(Box::new((**b).clone())),
            None => None,
        };
        OpenAIPropertyDescriptor { property_type: self.property_type.clone(), description, items }
    }
}

impl Clone for OpenAIParameterDescriptor {
    /// An equal copy.
    fn clone(&self) -> (r: Self)
        ensures
            r@ == self@,
    {
        let properties = self.properties.clone();
        let required = match &self.required {
            Some(v) => Some(v.clone()),
            None => None,
        };
        let r = OpenAIParameterDescriptor {
            parameter_type: self.parameter_type.clone(),
            properties,
            required,
        };
        assert(property_entries(r.properties@) =~= property_entries(self.properties@));
        r
    }
}

impl Clone for OpenAIToolDescriptor {
    /// An equal copy.
    fn clone(&self) -> (r: Self)
        ensures
            r@ == self@,
    {
        let description = match &self.description {
            Some(d) => Some(d.clone()),
            None => None,
        };
        let parameters = match &self.parameters {
            Some(p) => Some(p.clone()),
            None => None,
        };
        OpenAIToolDescriptor { name: self.name.clone(), description, parameters }
    }
}

impl OpenAIPropertyDescriptor {
    /// The schema of one argument: `integer` for the integer types, `string`
    /// for text, `boolean`, `number` for floats, and `array` for lists,
    /// whose items get the schema of the element type; the description is
    /// left out where it is empty.
    pub fn new(argument: IAArgument) -> (r: Self)
        ensures
            r@ == property_for(argument.arg_type, argument.description@),
    {
        let description = get_optional_description(argument.description);
        let r = property_from(&argument.arg_type, description);
        proof {
            lemma_property_from_model(&argument.arg_type, description, r);
        }
        r
    }

    /// The JSON Schema type.
    pub fn property_type(&self) -> (r: &String)
        ensures
            r@ == self@.property_type,
    {
        &self.property_type
    }

    /// The description, where there is one.
    pub fn description(&self) -> (r: &Option<String>)
        ensures
            optional_view(*r) == self@.description,
    {
        &self.description
    }

    /// The schema of the items of an array.
    pub fn items(&self) -> (r: &Option<Box<OpenAIPropertyDescriptor>>)
        ensures
            match *r {
                Some(b) => self@.items == Some(Box::new(b@)),
                None => self@.items is None,
            },
    {
        &self.items
    }
}

impl OpenAIParameterDescriptor {
    /// The parameters of a function with the arguments `arguments`: an
    /// object with a property for each argument, in order, and the names of
    /// the required arguments, or no such list where none is required.
    pub fn new(arguments: StringMap<IAArgument>) -> (r: Self)
        ensures
            describes_arguments(r@, arguments@),
    {
        proof {
            use_type_invariant(&arguments);
        }
        let ghost entries = arguments@;
        let mut properties: StringMap<OpenAIPropertyDescriptor> = StringMap::new();
        let mut required_args: Vec<String> = Vec::new();
        let mut i: usize = 0;
        assert(entries.take(0) =~= Seq::<(Seq<char>, IAArgument)>::empty());
        assert(name_views(required_args@) =~= Seq::<Seq<char>>::empty());
        while i < arguments.len()
            invariant
                entries == arguments@,
                keys_distinct(entries),
                i <= entries.len(),
                properties@.len() == i,
                forall|k: int|
                    0 <= k < i ==> (#[trigger] properties@[k]).0 == entries[k].0
                        && property_model(properties@[k].1) == property_for(
                        entries[k].1.arg_type,
                        entries[k].1.description@,
                    ),
                name_views(required_args@) == required_names(entries.take(i as int)),
            decreases entries.len() - i,
        {
            let name = arguments.key_at(i);
            let arg = arguments.value_at(i);
            assert(entries.take(i + 1).drop_last() =~= entries.take(i as int));
            assert(entries.take(i + 1).last() == entries[i as int]);
            if arg.required {
                let ghost before = required_args@;
                required_args.push(name.clone());
                assert(name_views(required_args@) =~= name_views(before).push(name@));
            }
            let description = get_optional_description(arg.description.clone());
            let property = property_from(&arg.arg_type, description);
            proof {
                lemma_property_from_model(&arg.arg_type, description, property);
            }
            let ghost before = properties@;
            assert(!crate::string_map::has_key(before, name@)) by {
                if crate::string_map::has_key(before, name@) {
                    let p = choose|p: int| 0 <= p < before.len() && #[trigger] before[p].0 == name@;
                    assert(entries[p].0 == entries[i as int].0);
                }
            }
            properties.insert(name.clone(), property);
            assert(properties@ == before.push((name@, property)));
            i = i + 1;
        }
        assert(entries.take(entries.len() as int) =~= entries);
        let required = if required_args.len() == 0 {
            None
        } else {
            Some(required_args)
        };
        let r = OpenAIParameterDescriptor { parameter_type: "object".to_string(), properties, required };
        assert(r@.properties =~= property_entries(r.properties@));
        r
    }

    /// The JSON Schema type, `object`.
    pub fn parameter_type(&self) -> (r: &String)
        ensures
            r@ == self@.parameter_type,
    {
        &self.parameter_type
    }

    /// The property of each argument, keyed by argument name.
    pub fn properties(&self) -> (r: &StringMap<OpenAIPropertyDescriptor>)
        ensures
            property_entries(r@) == self@.properties,
    {
        &self.properties
    }

    /// The names of the required arguments, where there are any.
    pub fn required(&self) -> (r: &Option<Vec<String>>)
        ensures
            match *r {
                Some(v) => self@.required == Some(name_views(v@)),
                None => self@.required is None,
            },
    {
        &self.required
    }
}

impl OpenAIToolDescriptor {
    /// The descriptor of the tool that `definition` defines: its name, its
    /// description unless empty, and its parameters unless it has no
    /// arguments.
    pub fn from_definition(definition: IAToolDefinition) -> (r: Self)
        ensures
            describes_tool(r@, definition),
    {
        let parameters = if definition.arguments.is_empty() {
            None
        } else {
            Some(OpenAIParameterDescriptor::new(definition.arguments))
        };
        OpenAIToolDescriptor {
            name: definition.name,
            description: get_optional_description(definition.description),
            parameters,
        }
    }

    /// The name of the function.
    pub fn name(&self) -> (r: &String)
        ensures
            r@ == self@.name,
    {
        &self.name
    }

    /// The description of the function, where there is one.
    pub fn description(&self) -> (r: &Option<String>)
        ensures
            optional_view(*r) == self@.description,
    {
        &self.description
    }

    /// The parameters of the function, where it has arguments.
    pub fn parameters(&self) -> (r: &Option<OpenAIParameterDescriptor>)
        ensures
            match *r {
                Some(p) => self@.parameters == Some(p@),
                None => self@.parameters is None,
            },
    {
        &self.parameters
    }
}

impl IADescriptor for OpenAIToolDescriptor {
    /// The descriptor built by `from_definition`.
    fn from_ai_tool_definition(definition: IAToolDefinition) -> (r: Self)
        ensures
            describes_tool(r@, definition),
    {
        OpenAIToolDescriptor::from_definition(definition)
    }
}

impl OpenAIFunctionTool {
    /// The function tool for the descriptor `descriptor`, of type
    /// `function`.
    pub fn new(descriptor: OpenAIToolDescriptor) -> (r: Self)
        ensures
            r@.tool_type == "function"@,
            r@.function == descriptor@,
    {
        OpenAIFunctionTool { tool_type: "function".to_string(), function: descriptor }
    }

    /// The type of the tool, `function`.
    pub fn tool_type(&self) -> (r: &String)
        ensures
            r@ == self@.tool_type,
    {
        &self.tool_type
    }

    /// The descriptor of the function.
    pub fn function(&self) -> (r: &OpenAIToolDescriptor)
        ensures
            r@ == self@.function,
    {
        &self.function
    }
}

/// Whatever `from_ai_tool_definition` answers for a definition describes
/// the tool that it defines; so does the descriptor that a tool set stores
/// when a tool is added with that definition.
pub proof fn lemma_built_descriptor_describes(definition: IAToolDefinition, d: OpenAIToolDescriptor)
    requires
        call_ensures(OpenAIToolDescriptor::from_ai_tool_definition, (definition,), d),
    ensures
        describes_tool(d@, definition),
{
}

/// The JSON Schema type of an argument is that of its values: every integer
/// type is `integer`, text `string`, booleans `boolean`, floats `number`,
/// lists `array` with items described by their element type.
pub proof fn lemma_schema_types(t: ArgumentType, description: Seq<char>)
    ensures
        is_integer_type(t) ==> property_for(t, description).property_type == "integer"@,
        t is Text ==> property_for(t, description).property_type == "string"@,
        t is Boolean ==> property_for(t, description).property_type == "boolean"@,
        t is Float ==> property_for(t, description).property_type == "number"@,
        t is Vec ==> property_for(t, description).property_type == "array"@
            && property_for(t, description).items == Some(Box::new(property_for(*t->Vec_0, seq![]))),
        !(t is Vec) ==> property_for(t, description).items is None,
        property_for(t, description).description == optional_text(description),
{
}

} // verus!
