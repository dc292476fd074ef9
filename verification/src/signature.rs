//! Reading the arguments of a function signature: which arguments a tool
//! has, of which types, which of them are optional, and how each is
//! described.

use vstd::prelude::*;
use crate::definition::{type_max, type_min, ArgumentType};
use crate::naming::{format_name_for_description, formatted_name};
use crate::numeric::chars_equal;
use crate::string_map::{lookup, StringMap};
use crate::text::chars_of;

verus! {

/// The generic arguments of a path segment, as far as they matter here.
pub enum GenericArgs {
    /// No generic arguments, or parenthesized ones.
    NotAngleBracketed,
    /// Angle-bracketed arguments: the first of them, where it is a type.
    AngleBracketed(Option<Box<TypeShape>>),
}

/// The shape of a type in a function signature, as far as it matters here.
pub enum TypeShape {
    /// A path type: the identifiers of its segments, and the generic
    /// arguments of its first segment.
    Path { segments: Vec<String>, first_arguments: GenericArgs },
    /// Any other type.
    Other,
}

/// Every path type in the shape has at least one segment, as every parsed
/// path does.
pub open spec fn shape_wf(t: TypeShape) -> bool
    decreases t,
{
    match t {
        TypeShape::Path { segments, first_arguments } => segments@.len() > 0 && match first_arguments {
            GenericArgs::AngleBracketed(Some(inner)) => shape_wf(*inner),
            _ => true,
        },
        TypeShape::Other => true,
    }
}

/// What a tool makes of one argument of the function.
#[derive(Debug)]
pub struct ArgumentPlan {
    /// The argument's name.
    pub name: String,
    /// Its description: the one given under `Parameters:`, or its formatted
    /// name.
    pub description: String,
    /// The type of data it takes.
    pub arg_type: ArgumentType,
    /// It is not an `Option`.
    pub required: bool,
    /// Its value is converted with `TryFrom<WrappedInt>` (an integer, or an
    /// optional integer) rather than with `TryFrom<WrappedData>`.
    pub integer_conversion: bool,
}

/// Why an argument of the function cannot become a tool argument.
#[derive(Debug, PartialEq, Eq)]
pub enum SignatureError {
    /// The argument is not a plain identifier pattern.
    UnsupportedPattern,
    /// `Option` without a type as first generic argument.
    OptionWithoutType,
    /// `Option` without angle-bracketed arguments.
    OptionNotAngleBracketed,
    /// `Vec` without a type as first generic argument.
    VecWithoutType,
    /// `Vec` without angle-bracketed arguments.
    VecNotAngleBracketed,
    /// The innermost type, reached by unwrapping `depth` generic arguments,
    /// is a path type whose last identifier is `name`, which is not
    /// supported.
    UnsupportedTypeName { name: String, depth: usize },
    /// The innermost type, reached by unwrapping `depth` generic arguments,
    /// is not a path type.
    UnsupportedType { depth: usize },
}

/// The model of a signature error.
pub enum SignatureErrorModel {
    UnsupportedPattern,
    OptionWithoutType,
    OptionNotAngleBracketed,
    VecWithoutType,
    VecNotAngleBracketed,
    UnsupportedTypeName(Seq<char>, nat),
    UnsupportedType(nat),
}

/// The model of a signature error.
pub open spec fn signature_error_model(e: SignatureError) -> SignatureErrorModel {
    match e {
        SignatureError::UnsupportedPattern => SignatureErrorModel::UnsupportedPattern,
        SignatureError::OptionWithoutType => SignatureErrorModel::OptionWithoutType,
        SignatureError::OptionNotAngleBracketed => SignatureErrorModel::OptionNotAngleBracketed,
        SignatureError::VecWithoutType => SignatureErrorModel::VecWithoutType,
        SignatureError::VecNotAngleBracketed => SignatureErrorModel::VecNotAngleBracketed,
        SignatureError::UnsupportedTypeName { name, depth } => SignatureErrorModel::UnsupportedTypeName(
            name@,
            depth as nat,
        ),
        SignatureError::UnsupportedType { depth } => SignatureErrorModel::UnsupportedType(
            depth as nat,
        ),
    }
}

/// The type is a path of one segment with identifier `name`.
pub open spec fn is_single_segment(t: TypeShape, name: Seq<char>) -> bool {
    match t {
        TypeShape::Path { segments, .. } => segments@.len() == 1 && segments@[0]@ == name,
        TypeShape::Other => false,
    }
}

/// The first generic argument of the first segment, where the type is a
/// path.
pub open spec fn first_generic(t: TypeShape) -> GenericArgs {
    match t {
        TypeShape::Path { first_arguments, .. } => first_arguments,
        TypeShape::Other => GenericArgs::NotAngleBracketed,
    }
}

/// The last identifier of a path type.
pub open spec fn last_ident(t: TypeShape) -> Option<Seq<char>> {
    match t {
        TypeShape::Path { segments, .. } => Some(segments@.last()@),
        TypeShape::Other => None,
    }
}

/// The argument type named by an identifier.
pub open spec fn scalar_type(name: Seq<char>) -> Option<ArgumentType> {
    if name == "i8"@ {
        Some(ArgumentType::I8)
    } else if name == "u8"@ {
        Some(ArgumentType::U8)
    } else if name == "i16"@ {
        Some(ArgumentType::I16)
    } else if name == "u16"@ {
        Some(ArgumentType::U16)
    } else if name == "i32"@ {
        Some(ArgumentType::I32)
    } else if name == "u32"@ {
        Some(ArgumentType::U32)
    } else if name == "i64"@ {
        Some(ArgumentType::I64)
    } else if name == "u64"@ {
        Some(ArgumentType::U64)
    } else if name == "String"@ {
        Some(ArgumentType::Text)
    } else if name == "bool"@ {
        Some(ArgumentType::Boolean)
    } else if name == "f64"@ {
        Some(ArgumentType::Float)
    } else {
        None
    }
}

/// The identifier names one of the integer types.
pub open spec fn is_integer_name(name: Seq<char>) -> bool {
    ||| name == "i8"@
    ||| name == "u8"@
    ||| name == "i16"@
    ||| name == "u16"@
    ||| name == "i32"@
    ||| name == "u32"@
    ||| name == "i64"@
    ||| name == "u64"@
}

/// The argument type and conversion for an argument of type `t`: `Option`
/// makes it optional, `Vec` makes it a list, and the innermost type must be
/// one of the supported scalar types. Gives `(arg_type, required,
/// integer_conversion)`.
pub open spec fn type_plan(t: TypeShape) -> Result<(ArgumentType, bool, bool), SignatureErrorModel> {
    let optional = is_single_segment(t, "Option"@);
    let unwrapped: Result<TypeShape, SignatureErrorModel> = if optional {
        match first_generic(t) {
            GenericArgs::AngleBracketed(Some(inner)) => Ok(*inner),
            GenericArgs::AngleBracketed(None) => Err(SignatureErrorModel::OptionWithoutType),
            GenericArgs::NotAngleBracketed => Err(SignatureErrorModel::OptionNotAngleBracketed),
        }
    } else {
        Ok(t)
    };
    match unwrapped {
        Err(e) => Err(e),
        Ok(conversion) => {
            let depth0: nat = if optional {
                1
            } else {
                0
            };
            let is_list = is_single_segment(conversion, "Vec"@);
            let element: Result<TypeShape, SignatureErrorModel> = if is_list {
                match first_generic(conversion) {
                    GenericArgs::AngleBracketed(Some(inner)) => Ok(*inner),
                    GenericArgs::AngleBracketed(None) => Err(SignatureErrorModel::VecWithoutType),
                    GenericArgs::NotAngleBracketed => Err(
                        SignatureErrorModel::VecNotAngleBracketed,
                    ),
                }
            } else {
                Ok(conversion)
            };
            match element {
                Err(e) => Err(e),
                Ok(innermost) => {
                    let depth: nat = if is_list {
                        depth0 + 1
                    } else {
                        depth0
                    };
                    match last_ident(innermost) {
                        None => Err(SignatureErrorModel::UnsupportedType(depth)),
                        Some(name) => match scalar_type(name) {
                            None => Err(SignatureErrorModel::UnsupportedTypeName(name, depth)),
                            Some(base) => {
                                let arg_type = if is_list {
                                    ArgumentType::Vec(Box::new(base))
                                } else {
                                    base
                                };
                                let integer_conversion = match last_ident(conversion) {
                                    Some(n) => is_integer_name(n),
                                    None => false,
                                };
                                Ok((arg_type, !optional, integer_conversion))
                            },
                        },
                    }
                },
            }
        },
    }
}

/// The description of the argument `name`: the one listed for it, or its
/// formatted name.
pub open spec fn argument_description(
    name: Seq<char>,
    descriptions: Seq<(Seq<char>, String)>,
) -> Seq<char> {
    match lookup(descriptions, name) {
        Some(d) => d@,
        None => formatted_name(name),
    }
}

fn text_is(s: &String, lit: &str) -> (r: bool)
    ensures
        r == (s@ == lit@),
{
    let a = chars_of(s.as_str());
    let b = chars_of(lit);
    chars_equal(&a, &b)
}

fn single_segment(t: &TypeShape, name: &str) -> (r: bool)
    ensures
        r == is_single_segment(*t, name@),
{
    match t {
        TypeShape::Path { segments, .. } => segments.len() == 1 && text_is(&segments[0], name),
        TypeShape::Other => false,
    }
}

fn scalar_type_of(name: &String) -> (r: Option<ArgumentType>)
    ensures
        r == scalar_type(name@),
{
    if text_is(name, "i8") {
        Some(ArgumentType::I8)
    } else if text_is(name, "u8") {
        Some(ArgumentType::U8)
    } else if text_is(name, "i16") {
        Some(ArgumentType::I16)
    } else if text_is(name, "u16") {
        Some(ArgumentType::U16)
    } else if text_is(name, "i32") {
        Some(ArgumentType::I32)
    } else if text_is(name, "u32") {
        Some(ArgumentType::U32)
    } else if text_is(name, "i64") {
        Some(ArgumentType::I64)
    } else if text_is(name, "u64") {
        Some(ArgumentType::U64)
    } else if text_is(name, "String") {
        Some(ArgumentType::Text)
    } else if text_is(name, "bool") {
        Some(ArgumentType::Boolean)
    } else if text_is(name, "f64") {
        Some(ArgumentType::Float)
    } else {
        None
    }
}

fn integer_name(t: &TypeShape) -> (r: bool)
    requires
        shape_wf(*t),
    ensures
        r == match last_ident(*t) {
            Some(n) => is_integer_name(n),
            None => false,
        },
{
    match t {
        TypeShape::Path { segments, .. } => {
            let last = &segments[segments.len() - 1];
            text_is(last, "i8") || text_is(last, "u8") || text_is(last, "i16") || text_is(
                last,
                "u16",
            ) || text_is(last, "i32") || text_is(last, "u32") || text_is(last, "i64") || text_is(
                last,
                "u64",
            )
        },
        TypeShape::Other => false,
    }
}

/// Reads one argument of a function: `pattern_name` is its name where its
/// pattern is a plain identifier, `ty` its type, `descriptions` the
/// argument descriptions of the documentation comment.
pub fn analyze_argument(
    pattern_name: Option<String>,
    ty: &TypeShape,
    descriptions: &StringMap<String>,
) -> (r: Result<ArgumentPlan, SignatureError>)
    requires
        shape_wf(*ty),
    ensures
        match pattern_name {
            None => r == Err::<ArgumentPlan, SignatureError>(SignatureError::UnsupportedPattern),
            Some(name) => match type_plan(*ty) {
                Ok(plan) => r is Ok && r->Ok_0.name@ == name@ && r->Ok_0.description@
                    == argument_description(name@, descriptions@) && r->Ok_0.arg_type == plan.0
                    && r->Ok_0.required == plan.1 && r->Ok_0.integer_conversion == plan.2,
                Err(e) => r is Err && signature_error_model(r->Err_0) == e,
            },
        },
{
    let name = match pattern_name {
        Some(n) => n,
        None => {
            return Err(SignatureError::UnsupportedPattern);
        },
    };
    let optional = single_segment(ty, "Option");
    let conversion: &TypeShape = if optional {
        match ty {
            TypeShape::Path { first_arguments: GenericArgs::AngleBracketed(Some(inner)), .. } => &**inner,
            TypeShape::Path { first_arguments: GenericArgs::AngleBracketed(None), .. } => {
                return Err(SignatureError::OptionWithoutType);
            },
            _ => {
                return Err(SignatureError::OptionNotAngleBracketed);
            },
        }
    } else {
        ty
    };
    assert(shape_wf(*conversion));
    let depth0: usize = if optional {
        1
    } else {
        0
    };
    let is_list = single_segment(conversion, "Vec");
    let innermost: &TypeShape = if is_list {
        match conversion {
            TypeShape::Path { first_arguments: GenericArgs::AngleBracketed(Some(inner)), .. } => &**inner,
            TypeShape::Path { first_arguments: GenericArgs::AngleBracketed(None), .. } => {
                return Err(SignatureError::VecWithoutType);
            },
            _ => {
                return Err(SignatureError::VecNotAngleBracketed);
            },
        }
    } else {
        conversion
    };
    assert(shape_wf(*innermost));
    let depth: usize = if is_list {
        depth0 + 1
    } else {
        depth0
    };
    let base = match innermost {
        TypeShape::Path { segments, .. } => {
            let last = &segments[segments.len() - 1];
            match scalar_type_of(last) {
                Some(b) => b,
                None => {
                    return Err(SignatureError::UnsupportedTypeName { name: last.clone(), depth });
                },
            }
        },
        TypeShape::Other => {
            return Err(SignatureError::UnsupportedType { depth });
        },
    };
    let arg_type = if is_list {
        ArgumentType::Vec(Box::new(base))
    } else {
        base
    };
    let integer_conversion = integer_name(conversion);
    let description = match descriptions.get(&name) {
        Some(d) => d.clone(),
        None => format_name_for_description(name.as_str()),
    };
    Ok(ArgumentPlan { name, description, arg_type, required: !optional, integer_conversion })
}

/// One parameter of a function signature.
pub enum Parameter {
    /// `self`, in any of its forms; it is no tool argument.
    Receiver,
    /// A typed parameter: its name where its pattern is a plain identifier,
    /// and its type.
    Typed(Option<String>, TypeShape),
}

/// Every typed parameter's type is well formed.
pub open spec fn parameters_wf(ps: Seq<Parameter>) -> bool {
    forall|i: int| 0 <= i < ps.len() ==> match #[trigger] ps[i] {
        Parameter::Typed(_, t) => shape_wf(t),
        Parameter::Receiver => true,
    }
}

/// What reading one typed parameter gives: its type's plan, or why it is
/// no tool argument.
pub open spec fn parameter_analysis(pattern_name: Option<String>, ty: TypeShape) -> Result<
    (ArgumentType, bool, bool),
    SignatureErrorModel,
> {
    match pattern_name {
        None => Err(SignatureErrorModel::UnsupportedPattern),
        Some(_) => type_plan(ty),
    }
}

/// `p` is the plan of the typed parameter `name: ty`.
pub open spec fn plan_of(
    p: ArgumentPlan,
    name: String,
    ty: TypeShape,
    descriptions: Seq<(Seq<char>, String)>,
) -> bool {
    match type_plan(ty) {
        Ok(plan) => p.name@ == name@ && p.description@ == argument_description(name@, descriptions)
            && p.arg_type == plan.0 && p.required == plan.1 && p.integer_conversion == plan.2,
        Err(_) => false,
    }
}

/// The typed parameter `ps[i]` reads as a tool argument.
pub open spec fn parameter_ok(ps: Seq<Parameter>, i: int) -> bool {
    match ps[i] {
        Parameter::Typed(n, t) => parameter_analysis(n, t) is Ok,
        Parameter::Receiver => true,
    }
}

/// Reads the parameters of a function in order: `None` for the receiver,
/// the plan of each typed parameter; or, at the first typed parameter that
/// is no tool argument, its position and the reason.
pub fn analyze_parameters(parameters: &Vec<Parameter>, descriptions: &StringMap<String>) -> (r:
    Result<Vec<Option<ArgumentPlan>>, (usize, SignatureError)>)
    requires
        parameters_wf(parameters@),
    ensures
        match r {
            Ok(plans) => {
                &&& plans@.len() == parameters@.len()
                &&& forall|i: int|
                    0 <= i < parameters@.len() ==> match #[trigger] parameters@[i] {
                        Parameter::Receiver => plans@[i] is None,
                        Parameter::Typed(n, t) => n is Some && plans@[i] is Some && plan_of(
                            plans@[i]->Some_0,
                            n->Some_0,
                            t,
                            descriptions@,
                        ),
                    }
            },
            Err((k, e)) => {
                &&& k < parameters@.len()
                &&& forall|i: int| 0 <= i < k ==> #[trigger] parameter_ok(parameters@, i)
                &&& match parameters@[k as int] {
                    Parameter::Typed(n, t) => parameter_analysis(n, t) == Err::<
                        (ArgumentType, bool, bool),
                        SignatureErrorModel,
                    >(signature_error_model(e)),
                    Parameter::Receiver => false,
                }
            },
        },
{
    let mut plans: Vec<Option<ArgumentPlan>> = Vec::new();
    let mut i: usize = 0;
    while i < parameters.len()
        invariant
            i <= parameters@.len(),
            parameters_wf(parameters@),
            plans@.len() == i,
            forall|k: int|
                0 <= k < i ==> match #[trigger] parameters@[k] {
                    Parameter::Receiver => plans@[k] is None,
                    Parameter::Typed(n, t) => n is Some && plans@[k] is Some && plan_of(
                        plans@[k]->Some_0,
                        n->Some_0,
                        t,
                        descriptions@,
                    ),
                },
            forall|k: int| 0 <= k < i ==> #[trigger] parameter_ok(parameters@, k),
        decreases parameters@.len() - i,
    {
        assert(match parameters@[i as int] {
            Parameter::Typed(_, t) => shape_wf(t),
            Parameter::Receiver => true,
        });
        match &parameters[i] {
            Parameter::Receiver => {
                plans.push(None);
            },
            Parameter::Typed(name, ty) => {
                let pattern_name = match name {
                    Some(n) => Some(n.clone()),
                    None => None,
                };
                match analyze_argument(pattern_name, ty, descriptions) {
                    Ok(plan) => {
                        plans.push(Some(plan));
                    },
                    Err(e) => {
                        return Err((i, e));
                    },
                }
            },
        }
        i = i + 1;
    }
    Ok(plans)
}

/// The conversion through `TryFrom<WrappedInt>` is chosen exactly for the
/// arguments of an integer type, whose converted values are integers; lists
/// and the other types go through `TryFrom<WrappedData>`.
pub proof fn lemma_integer_conversion_matches(t: TypeShape)
    requires
        shape_wf(t),
        type_plan(t) is Ok,
    ensures
        type_plan(t)->Ok_0.2 <==> crate::definition::is_integer_type(type_plan(t)->Ok_0.0),
{
    reveal_strlit("Vec");
    reveal_strlit("i8");
    reveal_strlit("u8");
    reveal_strlit("i16");
    reveal_strlit("u16");
    reveal_strlit("i32");
    reveal_strlit("u32");
    reveal_strlit("i64");
    reveal_strlit("u64");
    reveal_strlit("String");
    reveal_strlit("bool");
    reveal_strlit("f64");
    let optional = is_single_segment(t, "Option"@);
    let conversion = if optional {
        match first_generic(t) {
            GenericArgs::AngleBracketed(Some(inner)) => *inner,
            _ => t,
        }
    } else {
        t
    };
    if is_single_segment(conversion, "Vec"@) {
        assert(last_ident(conversion) == Some("Vec"@));
        assert("Vec"@[0] == 'V');
        assert(!is_integer_name("Vec"@)) by {
            assert("i8"@[0] == 'i' && "i16"@[0] == 'i' && "i32"@[0] == 'i' && "i64"@[0] == 'i');
            assert("u8"@[0] == 'u' && "u16"@[0] == 'u' && "u32"@[0] == 'u' && "u64"@[0] == 'u');
        }
    } else {
        let name = last_ident(conversion)->Some_0;
        assert(scalar_type(name) is Some);
        assert(is_integer_name(name) <==> crate::definition::is_integer_type(scalar_type(name)->Some_0));
    }
}

/// A supported type name reads as the argument type of the same type: each
/// integer name as the integer type whose range is that Rust type's range,
/// `String` as text, `bool` as booleans, `f64` as floats; no other name is
/// supported.
pub proof fn lemma_scalar_type_names(name: Seq<char>)
    ensures
        scalar_type(name) is Some <==> (is_integer_name(name) || name == "String"@ || name
            == "bool"@ || name == "f64"@),
        is_integer_name(name) ==> scalar_type(name) is Some && crate::definition::is_integer_type(
            scalar_type(name)->Some_0,
        ),
        name == "i8"@ ==> type_min(scalar_type(name)->Some_0) == i8::MIN && type_max(scalar_type(name)->Some_0) == i8::MAX,
        name == "u8"@ ==> type_min(scalar_type(name)->Some_0) == u8::MIN && type_max(scalar_type(name)->Some_0) == u8::MAX,
        name == "i16"@ ==> type_min(scalar_type(name)->Some_0) == i16::MIN && type_max(scalar_type(name)->Some_0) == i16::MAX,
        name == "u16"@ ==> type_min(scalar_type(name)->Some_0) == u16::MIN && type_max(scalar_type(name)->Some_0) == u16::MAX,
        name == "i32"@ ==> type_min(scalar_type(name)->Some_0) == i32::MIN && type_max(scalar_type(name)->Some_0) == i32::MAX,
        name == "u32"@ ==> type_min(scalar_type(name)->Some_0) == u32::MIN && type_max(scalar_type(name)->Some_0) == u32::MAX,
        name == "i64"@ ==> type_min(scalar_type(name)->Some_0) == i64::MIN && type_max(scalar_type(name)->Some_0) == i64::MAX,
        name == "u64"@ ==> type_min(scalar_type(name)->Some_0) == u64::MIN && type_max(scalar_type(name)->Some_0) == u64::MAX,
        name == "String"@ ==> scalar_type(name) == Some(ArgumentType::Text),
        name == "bool"@ ==> scalar_type(name) == Some(ArgumentType::Boolean),
        name == "f64"@ ==> scalar_type(name) == Some(ArgumentType::Float),
{
    reveal_strlit("i8");
    reveal_strlit("u8");
    reveal_strlit("i16");
    reveal_strlit("u16");
    reveal_strlit("i32");
    reveal_strlit("u32");
    reveal_strlit("i64");
    reveal_strlit("u64");
    reveal_strlit("String");
    reveal_strlit("bool");
    reveal_strlit("f64");
    assert("u8"@ != "i8"@) by { assert("u8"@[0] != "i8"@[0]); }
    assert("i16"@ != "i8"@) by { assert("i16"@.len() != "i8"@.len()); }
    assert("i16"@ != "u8"@) by { assert("i16"@.len() != "u8"@.len()); }
    assert("u16"@ != "i8"@) by { assert("u16"@.len() != "i8"@.len()); }
    assert("u16"@ != "u8"@) by { assert("u16"@.len() != "u8"@.len()); }
    assert("u16"@ != "i16"@) by { assert("u16"@[0] != "i16"@[0]); }
    assert("i32"@ != "i8"@) by { assert("i32"@.len() != "i8"@.len()); }
    assert("i32"@ != "u8"@) by { assert("i32"@.len() != "u8"@.len()); }
    assert("i32"@ != "i16"@) by { assert("i32"@[1] != "i16"@[1]); }
    assert("i32"@ != "u16"@) by { assert("i32"@[0] != "u16"@[0]); }
    assert("u32"@ != "i8"@) by { assert("u32"@.len() != "i8"@.len()); }
    assert("u32"@ != "u8"@) by { assert("u32"@.len() != "u8"@.len()); }
    assert("u32"@ != "i16"@) by { assert("u32"@[0] != "i16"@[0]); }
    assert("u32"@ != "u16"@) by { assert("u32"@[1] != "u16"@[1]); }
    assert("u32"@ != "i32"@) by { assert("u32"@[0] != "i32"@[0]); }
    assert("i64"@ != "i8"@) by { assert("i64"@.len() != "i8"@.len()); }
    assert("i64"@ != "u8"@) by { assert("i64"@.len() != "u8"@.len()); }
    assert("i64"@ != "i16"@) by { assert("i64"@[1] != "i16"@[1]); }
    assert("i64"@ != "u16"@) by { assert("i64"@[0] != "u16"@[0]); }
    assert("i64"@ != "i32"@) by { assert("i64"@[1] != "i32"@[1]); }
    assert("i64"@ != "u32"@) by { assert("i64"@[0] != "u32"@[0]); }
    assert("u64"@ != "i8"@) by { assert("u64"@.len() != "i8"@.len()); }
    assert("u64"@ != "u8"@) by { assert("u64"@.len() != "u8"@.len()); }
    assert("u64"@ != "i16"@) by { assert("u64"@[0] != "i16"@[0]); }
    assert("u64"@ != "u16"@) by { assert("u64"@[1] != "u16"@[1]); }
    assert("u64"@ != "i32"@) by { assert("u64"@[0] != "i32"@[0]); }
    assert("u64"@ != "u32"@) by { assert("u64"@[1] != "u32"@[1]); }
    assert("u64"@ != "i64"@) by { assert("u64"@[0] != "i64"@[0]); }
    assert("String"@ != "i8"@) by { assert("String"@.len() != "i8"@.len()); }
    assert("String"@ != "u8"@) by { assert("String"@.len() != "u8"@.len()); }
    assert("String"@ != "i16"@) by { assert("String"@.len() != "i16"@.len()); }
    assert("String"@ != "u16"@) by { assert("String"@.len() != "u16"@.len()); }
    assert("String"@ != "i32"@) by { assert("String"@.len() != "i32"@.len()); }
    assert("String"@ != "u32"@) by { assert("String"@.len() != "u32"@.len()); }
    assert("String"@ != "i64"@) by { assert("String"@.len() != "i64"@.len()); }
    assert("String"@ != "u64"@) by { assert("String"@.len() != "u64"@.len()); }
    assert("bool"@ != "i8"@) by { assert("bool"@.len() != "i8"@.len()); }
    assert("bool"@ != "u8"@) by { assert("bool"@.len() != "u8"@.len()); }
    assert("bool"@ != "i16"@) by { assert("bool"@.len() != "i16"@.len()); }
    assert("bool"@ != "u16"@) by { assert("bool"@.len() != "u16"@.len()); }
    assert("bool"@ != "i32"@) by { assert("bool"@.len() != "i32"@.len()); }
    assert("bool"@ != "u32"@) by { assert("bool"@.len() != "u32"@.len()); }
    assert("bool"@ != "i64"@) by { assert("bool"@.len() != "i64"@.len()); }
    assert("bool"@ != "u64"@) by { assert("bool"@.len() != "u64"@.len()); }
    assert("bool"@ != "String"@) by { assert("bool"@.len() != "String"@.len()); }
    assert("f64"@ != "i8"@) by { assert("f64"@.len() != "i8"@.len()); }
    assert("f64"@ != "u8"@) by { assert("f64"@.len() != "u8"@.len()); }
    assert("f64"@ != "i16"@) by { assert("f64"@[0] != "i16"@[0]); }
    assert("f64"@ != "u16"@) by { assert("f64"@[0] != "u16"@[0]); }
    assert("f64"@ != "i32"@) by { assert("f64"@[0] != "i32"@[0]); }
    assert("f64"@ != "u32"@) by { assert("f64"@[0] != "u32"@[0]); }
    assert("f64"@ != "i64"@) by { assert("f64"@[0] != "i64"@[0]); }
    assert("f64"@ != "u64"@) by { assert("f64"@[0] != "u64"@[0]); }
    assert("f64"@ != "String"@) by { assert("f64"@.len() != "String"@.len()); }
    assert("f64"@ != "bool"@) by { assert("f64"@.len() != "bool"@.len()); }
}

} // verus!
