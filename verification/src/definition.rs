//! The description of a tool: its name, what it does, and its arguments.

use vstd::prelude::*;
use crate::string_map::StringMap;

verus! {

/// The types of data that a tool's arguments can take: the integer types,
/// text, booleans, floating-point numbers, and homogeneous lists of these.
#[derive(Debug, PartialEq, Eq)]
pub enum ArgumentType {
    I8,
    U8,
    I16,
    U16,
    I32,
    U32,
    I64,
    U64,
    Text,
    Boolean,
    Float,
    Vec(Box<ArgumentType>),
}

/// One argument of a tool.
#[derive(Debug)]
pub struct IAArgument {
    /// The name of the argument.
    pub name: String,
    /// What the argument represents.
    pub description: String,
    /// The type of data expected for the argument.
    pub arg_type: ArgumentType,
    /// Whether the argument must be given (`true`) or may be left out or
    /// given as `null` (`false`).
    pub required: bool,
}

/// The description of a tool: its unique name, what it does, and its
/// arguments keyed by name.
#[derive(Debug)]
pub struct IAToolDefinition {
    /// The unique name of the tool.
    pub name: String,
    /// What the tool is for.
    pub description: String,
    /// The arguments the tool accepts, keyed by argument name.
    pub arguments: StringMap<IAArgument>,
}

/// The type is one of the integer types.
pub open spec fn is_integer_type(t: ArgumentType) -> bool {
    match t {
        ArgumentType::I8 | ArgumentType::U8 | ArgumentType::I16 | ArgumentType::U16
        | ArgumentType::I32 | ArgumentType::U32 | ArgumentType::I64 | ArgumentType::U64 => true,
        _ => false,
    }
}

/// The type is one of the signed integer types.
pub open spec fn is_signed_type(t: ArgumentType) -> bool {
    match t {
        ArgumentType::I8 | ArgumentType::I16 | ArgumentType::I32 | ArgumentType::I64 => true,
        _ => false,
    }
}

/// The least value of an integer type.
pub open spec fn type_min(t: ArgumentType) -> int {
    match t {
        ArgumentType::I8 => i8::MIN as int,
        ArgumentType::I16 => i16::MIN as int,
        ArgumentType::I32 => i32::MIN as int,
        ArgumentType::I64 => i64::MIN as int,
        _ => 0,
    }
}

/// The greatest value of an integer type.
pub open spec fn type_max(t: ArgumentType) -> int {
    match t {
        ArgumentType::I8 => i8::MAX as int,
        ArgumentType::U8 => u8::MAX as int,
        ArgumentType::I16 => i16::MAX as int,
        ArgumentType::U16 => u16::MAX as int,
        ArgumentType::I32 => i32::MAX as int,
        ArgumentType::U32 => u32::MAX as int,
        ArgumentType::I64 => i64::MAX as int,
        ArgumentType::U64 => u64::MAX as int,
        _ => 0,
    }
}

} // verus!
