//! Tool definitions for language models: descriptions of callable tools,
//! the conversion of their JSON arguments into typed values, descriptors in
//! the OpenAI function-calling format, and a registry that routes calls.
//!
//! The pieces that a procedural macro needs to turn a documented function
//! into a tool are here too: the default descriptions formatted from
//! `snake_case` names, the reading of documentation comments, and the
//! analysis of argument types.

pub mod args;
pub mod data;
pub mod definition;
pub mod docs;
pub mod int_conversions;
pub mod json;
pub mod naming;
pub mod numeric;
pub mod open_ai;
pub mod signature;
pub mod string_map;
pub mod text;
pub mod tool_set;

pub use crate::args::{
    convert_json_args, convert_single_arg, parse_json_args_internal, parse_single_arg,
    try_parse_json_args, ArgError, ValueFault,
};
pub use crate::data::{FloatSource, WrappedData, WrappedInt};
pub use crate::definition::{ArgumentType, IAArgument, IAToolDefinition};
pub use crate::docs::parse_function_docs;
pub use crate::json::{JsonNumber, JsonValue};
pub use crate::naming::{format_name_for_description, tool_struct_name};
pub use crate::open_ai::{
    get_optional_description, IADescriptor, OpenAIFunctionTool, OpenAIParameterDescriptor,
    OpenAIPropertyDescriptor, OpenAIToolDescriptor,
};
pub use crate::signature::{
    analyze_argument, analyze_parameters, ArgumentPlan, GenericArgs, Parameter, SignatureError,
    TypeShape,
};
pub use crate::string_map::StringMap;
pub use crate::tool_set::{Dispatch, ToolSet};
