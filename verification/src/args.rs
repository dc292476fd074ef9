//! Converting the JSON arguments of a tool call into typed values, following
//! the types that the tool's definition gives its arguments.

use vstd::prelude::*;
use crate::data::{
    bool_list, data_model, data_models, i16_list, i32_list, i64_list, i8_list,
    lemma_convert_items_ok, lemma_data_model_vec, text_list, u16_list, u32_list, u64_list,
    u8_list, DataModel, FloatModel, FloatSource, WrappedData, WrappedInt,
};
use crate::int_conversions::{
    i16_from_wrapped, i32_from_wrapped, i64_from_wrapped, i8_from_wrapped, u16_from_wrapped,
    u32_from_wrapped, u64_from_wrapped, u8_from_wrapped,
};
use crate::definition::{
    is_integer_type, is_signed_type, type_max, type_min, ArgumentType, IAArgument,
    IAToolDefinition,
};
use crate::json::{
    json_text_value, member, object_get, parse_json_text, value_as_i64, value_as_u64, JsonValue,
};
use crate::numeric::{
    bool_text, bool_text_value, clamped, float_text, float_text_ok, integer_text,
    integer_text_value, limit,
};
use crate::string_map::{has_key, inserted, keys_distinct, StringMap};
use crate::text::chars_of;

verus! {

/// How a JSON value fails to convert to the type expected of it.
#[derive(Debug, Clone, Copy, PartialEq, Eq)]
pub enum ValueFault {
    /// A JSON integer outside the range of the expected integer type.
    OutOfRange,
    /// A JSON string that does not read as a value of the expected type.
    BadText,
    /// A JSON value of a kind that the expected type does not take.
    WrongKind,
}

/// Why the arguments of a tool call cannot be converted.
#[derive(Debug)]
pub enum ArgError {
    /// The arguments are not the text of a JSON document.
    MalformedJson,
    /// The arguments are not a JSON object.
    NotAnObject,
    /// A required argument is not among them.
    MissingRequired(String),
    /// A required argument is `null`.
    NullRequired(String),
    /// The value of an argument does not convert. The path leads from the
    /// argument's value to the failing value: one array index per level.
    InvalidValue { name: String, fault: ValueFault, path: Vec<usize> },
}

/// The model of an argument error.
pub enum ArgErrorModel {
    MalformedJson,
    NotAnObject,
    MissingRequired(Seq<char>),
    NullRequired(Seq<char>),
    InvalidValue(Seq<char>, ValueFault, Seq<usize>),
}

/// The model of an argument error.
pub open spec fn arg_error_model(e: ArgError) -> ArgErrorModel {
    match e {
        ArgError::MalformedJson => ArgErrorModel::MalformedJson,
        ArgError::NotAnObject => ArgErrorModel::NotAnObject,
        ArgError::MissingRequired(n) => ArgErrorModel::MissingRequired(n@),
        ArgError::NullRequired(n) => ArgErrorModel::NullRequired(n@),
        ArgError::InvalidValue { name, fault, path } => ArgErrorModel::InvalidValue(
            name@,
            fault,
            path@,
        ),
    }
}

/// The integer that the JSON value holds, as the expected integer type
/// reads it: `as_i64` for the signed types, `as_u64` for the others.
pub open spec fn json_integer(t: ArgumentType, v: JsonValue) -> Option<int> {
    if is_signed_type(t) {
        match value_as_i64(v) {
            Some(x) => Some(x as int),
            None => None,
        }
    } else {
        match value_as_u64(v) {
            Some(x) => Some(x as int),
            None => None,
        }
    }
}

/// The integer `x` wrapped as the integer type `t`.
pub open spec fn wrap_as(t: ArgumentType, x: int) -> WrappedInt {
    match t {
        ArgumentType::I8 => WrappedInt::I8(x as i8),
        ArgumentType::U8 => WrappedInt::U8(x as u8),
        ArgumentType::I16 => WrappedInt::I16(x as i16),
        ArgumentType::U16 => WrappedInt::U16(x as u16),
        ArgumentType::I32 => WrappedInt::I32(x as i32),
        ArgumentType::U32 => WrappedInt::U32(x as u32),
        ArgumentType::I64 => WrappedInt::I64(x as i64),
        _ => WrappedInt::U64(x as u64),
    }
}

/// Converting a JSON value to the integer type `t`: a JSON integer must lie
/// in the type's range; a JSON string must read as such an integer.
pub open spec fn parse_integer_value(t: ArgumentType, v: JsonValue) -> Result<
    DataModel,
    (ValueFault, Seq<usize>),
> {
    match json_integer(t, v) {
        Some(n) => if type_min(t) <= n <= type_max(t) {
            Ok(DataModel::Number(wrap_as(t, n)))
        } else {
            Err((ValueFault::OutOfRange, seq![]))
        },
        None => match v {
            JsonValue::String(s) => match integer_text_value(s@, is_signed_type(t)) {
                Some(x) => if type_min(t) <= x <= type_max(t) {
                    Ok(DataModel::Number(wrap_as(t, x)))
                } else {
                    Err((ValueFault::BadText, seq![]))
                },
                None => Err((ValueFault::BadText, seq![])),
            },
            _ => Err((ValueFault::WrongKind, seq![])),
        },
    }
}

/// Converting the JSON value `v` to the type `t`; a failure gives its kind
/// and the path of array indices to the failing value.
pub open spec fn parse_value(t: ArgumentType, v: JsonValue) -> Result<
    DataModel,
    (ValueFault, Seq<usize>),
>
    decreases t, 0nat,
{
    match t {
        ArgumentType::Text => match v {
            JsonValue::String(s) => Ok(DataModel::Text(s@)),
            _ => Err((ValueFault::WrongKind, seq![])),
        },
        ArgumentType::Boolean => match v {
            JsonValue::Bool(b) => Ok(DataModel::Boolean(b)),
            JsonValue::String(s) => match bool_text_value(s@) {
                Some(b) => Ok(DataModel::Boolean(b)),
                None => Err((ValueFault::BadText, seq![])),
            },
            _ => Err((ValueFault::WrongKind, seq![])),
        },
        ArgumentType::Float => match v {
            JsonValue::Number(n) => Ok(DataModel::Float(FloatModel::Number(n))),
            JsonValue::String(s) => if float_text_ok(s@) {
                Ok(DataModel::Float(FloatModel::Text(s@)))
            } else {
                Err((ValueFault::BadText, seq![]))
            },
            _ => Err((ValueFault::WrongKind, seq![])),
        },
        ArgumentType::Vec(inner) => match v {
            JsonValue::Array(items) => match parse_items(*inner, items@) {
                Ok(ms) => Ok(DataModel::Vec(ms)),
                Err(f) => Err(f),
            },
            _ => Err((ValueFault::WrongKind, seq![])),
        },
        _ => parse_integer_value(t, v),
    }
}

/// Converting the items of a JSON array to the type `t`, in order; the
/// first item that fails gives the error, its index put in front of the
/// path.
pub open spec fn parse_items(t: ArgumentType, items: Seq<JsonValue>) -> Result<
    Seq<DataModel>,
    (ValueFault, Seq<usize>),
>
    decreases t, items.len(),
{
    if items.len() == 0 {
        Ok(seq![])
    } else {
        match parse_items(t, items.drop_last()) {
            Err(f) => Err(f),
            Ok(done) => match parse_value(t, items.last()) {
                Err(f) => Err((f.0, seq![(items.len() - 1) as usize] + f.1)),
                Ok(d) => Ok(done.push(d)),
            },
        }
    }
}

proof fn lemma_parse_items_error_stays(t: ArgumentType, items: Seq<JsonValue>, n: int)
    requires
        0 <= n <= items.len(),
        parse_items(t, items.take(n)) is Err,
    ensures
        parse_items(t, items) == parse_items(t, items.take(n)),
    decreases items.len() - n,
{
    if n < items.len() {
        assert(items.take(n + 1).drop_last() =~= items.take(n));
        lemma_parse_items_error_stays(t, items, n + 1);
    } else {
        assert(items.take(n) =~= items);
    }
}

/// The integer that `v` holds as `t` reads it, where it holds one.
fn json_integer_exec(t: &ArgumentType, v: &JsonValue) -> (r: Option<i128>)
    requires
        is_integer_type(*t),
    ensures
        match r {
            Some(x) => json_integer(*t, *v) == Some(x as int),
            None => json_integer(*t, *v) is None,
        },
{
    let signed = match t {
        ArgumentType::I8 | ArgumentType::I16 | ArgumentType::I32 | ArgumentType::I64 => true,
        _ => false,
    };
    match v {
        JsonValue::Number(n) => if signed {
            match n.as_i64() {
                Some(x) => Some(x as i128),
                None => None,
            }
        } else {
            match n.as_u64() {
                Some(x) => Some(x as i128),
                None => None,
            }
        },
        _ => None,
    }
}

/// `x` wrapped as the integer type `t`, where it lies in the type's range.
fn wrap_in_range(t: &ArgumentType, x: i128) -> (r: Option<WrappedInt>)
    requires
        is_integer_type(*t),
    ensures
        match r {
            Some(w) => type_min(*t) <= x <= type_max(*t) && w == wrap_as(*t, x as int),
            None => !(type_min(*t) <= x <= type_max(*t)),
        },
{
    match t {
        ArgumentType::I8 => if -128 <= x && x <= 127 {
            Some(WrappedInt::I8(x as i8))
        } else {
            None
        },
        ArgumentType::U8 => if 0 <= x && x <= 255 {
            Some(WrappedInt::U8(x as u8))
        } else {
            None
        },
        ArgumentType::I16 => if -32768 <= x && x <= 32767 {
            Some(WrappedInt::I16(x as i16))
        } else {
            None
        },
        ArgumentType::U16 => if 0 <= x && x <= 65535 {
            Some(WrappedInt::U16(x as u16))
        } else {
            None
        },
        ArgumentType::I32 => if -2147483648 <= x && x <= 2147483647 {
            Some(WrappedInt::I32(x as i32))
        } else {
            None
        },
        ArgumentType::U32 => if 0 <= x && x <= 4294967295 {
            Some(WrappedInt::U32(x as u32))
        } else {
            None
        },
        ArgumentType::I64 => if -9223372036854775808 <= x && x <= 9223372036854775807 {
            Some(WrappedInt::I64(x as i64))
        } else {
            None
        },
        _ => if 0 <= x && x <= 18446744073709551615 {
            Some(WrappedInt::U64(x as u64))
        } else {
            None
        },
    }
}

fn parse_integer(t: &ArgumentType, v: &JsonValue) -> (r: Result<WrappedData, ValueFault>)
    requires
        is_integer_type(*t),
    ensures
        match parse_integer_value(*t, *v) {
            Ok(d) => r is Ok && data_model(r->Ok_0) == d,
            Err(f) => r == Err::<WrappedData, ValueFault>(f.0) && f.1 == Seq::<usize>::empty(),
        },
{
    match json_integer_exec(t, v) {
        Some(n) => match wrap_in_range(t, n) {
            Some(w) => Ok(WrappedData::Number(w)),
            None => Err(ValueFault::OutOfRange),
        },
        None => match v {
            JsonValue::String(s) => {
                let cs = chars_of(s.as_str());
                let signed = match t {
                    ArgumentType::I8 | ArgumentType::I16 | ArgumentType::I32 | ArgumentType::I64 => true,
                    _ => false,
                };
                match integer_text(&cs, signed) {
                    Some(x) => {
                        assert(type_min(*t) > -limit() && type_max(*t) < limit());
                        match wrap_in_range(t, x) {
                            Some(w) => Ok(WrappedData::Number(w)),
                            None => Err(ValueFault::BadText),
                        }
                    },
                    None => Err(ValueFault::BadText),
                }
            },
            _ => Err(ValueFault::WrongKind),
        },
    }
}

/// Converts one JSON value into a value of the type `arg_type`: integers in
/// the type's range, or strings that read as such integers; strings for
/// `Text`; booleans, or the strings `true` and `false`, for `Boolean`;
/// numbers, or strings that read as `f64`, for `Float`; arrays whose items
/// all convert for `Vec`. A failure gives its kind and the path of array
/// indices to the failing value.
pub fn convert_single_arg(arg_type: &ArgumentType, json_value: &JsonValue) -> (r: Result<
    WrappedData,
    (ValueFault, Vec<usize>),
>)
    ensures
        match parse_value(*arg_type, *json_value) {
            Ok(d) => r is Ok && data_model(r->Ok_0) == d,
            Err(f) => r is Err && r->Err_0.0 == f.0 && r->Err_0.1@ == f.1,
        },
    decreases arg_type,
{
    match arg_type {
        ArgumentType::Text => match json_value {
            JsonValue::String(s) => Ok(WrappedData::Text(s.clone())),
            _ => Err((ValueFault::WrongKind, Vec::new())),
        },
        ArgumentType::Boolean => match json_value {
            JsonValue::Bool(b) => Ok(WrappedData::Boolean(*b)),
            JsonValue::String(s) => {
                let cs = chars_of(s.as_str());
                match bool_text(&cs) {
                    Some(b) => Ok(WrappedData::Boolean(b)),
                    None => Err((ValueFault::BadText, Vec::new())),
                }
            },
            _ => Err((ValueFault::WrongKind, Vec::new())),
        },
        ArgumentType::Float => match json_value {
            JsonValue::Number(n) => Ok(WrappedData::Float(FloatSource::Number(*n))),
            JsonValue::String(s) => {
                let cs = chars_of(s.as_str());
                if float_text(&cs) {
                    Ok(WrappedData::Float(FloatSource::Text(s.clone())))
                } else {
                    Err((ValueFault::BadText, Vec::new()))
                }
            },
            _ => Err((ValueFault::WrongKind, Vec::new())),
        },
        ArgumentType::Vec(inner) => match json_value {
            JsonValue::Array(items) => {
                let ghost t = **inner;
                let mut out: Vec<WrappedData> = Vec::new();
                let mut i: usize = 0;
                assert(items@.take(0) =~= Seq::<JsonValue>::empty());
                assert(data_models(out@) =~= Seq::<DataModel>::empty());
                while i < items.len()
                    invariant
                        i <= items@.len(),
                        *arg_type == ArgumentType::Vec(*inner),
                        *json_value == JsonValue::Array(*items),
                        t == **inner,
                        parse_items(t, items@.take(i as int)) == Ok::<
                            Seq<DataModel>,
                            (ValueFault, Seq<usize>),
                        >(data_models(out@)),
                    decreases items@.len() - i,
                {
                    assert(items@.take(i + 1).drop_last() =~= items@.take(i as int));
                    assert(items@.take(i + 1).last() == items@[i as int]);
                    proof {
                        assert(decreases_to!(*arg_type => **inner));
                    }
                    match convert_single_arg(&**inner, &items[i]) {
                        Ok(d) => {
                            let ghost before = out@;
                            out.push(d);
                            assert(data_models(out@) =~= data_models(before).push(data_model(d)));
                        },
                        Err((fault, sub)) => {
                            let mut path: Vec<usize> = Vec::new();
                            path.push(i);
                            let mut k: usize = 0;
                            while k < sub.len()
                                invariant
                                    k <= sub@.len(),
                                    path@ == seq![i] + sub@.take(k as int),
                                decreases sub@.len() - k,
                            {
                                path.push(sub[k]);
                                assert(seq![i] + sub@.take(k + 1) =~= (seq![i] + sub@.take(
                                    k as int,
                                )).push(sub@[k as int]));
                                k = k + 1;
                            }
                            assert(sub@.take(sub@.len() as int) =~= sub@);
                            proof {
                                lemma_parse_items_error_stays(t, items@, i + 1);
                            }
                            return Err((fault, path));
                        },
                    }
                    i = i + 1;
                }
                assert(items@.take(items@.len() as int) =~= items@);
                proof {
                    lemma_data_model_vec(out);
                }
                Ok(WrappedData::Vec(out))
            },
            _ => Err((ValueFault::WrongKind, Vec::new())),
        },
        _ => match parse_integer(arg_type, json_value) {
            Ok(d) => Ok(d),
            Err(f) => Err((f, Vec::new())),
        },
    }
}

/// The value `d` converts into the Rust type that declares an argument of
/// type `t`: an integer into its integer type (`TryFrom<WrappedInt>`), a
/// text into `String`, a boolean into `bool`, a float into `f64`, a list
/// into `Vec` of its item type; lists of lists have no such Rust type and
/// only need to be lists.
pub open spec fn fits_declared_type(t: ArgumentType, d: DataModel) -> bool {
    match t {
        ArgumentType::I8 => (d matches DataModel::Number(w) && i8_from_wrapped(w) is Ok),
        ArgumentType::U8 => (d matches DataModel::Number(w) && u8_from_wrapped(w) is Ok),
        ArgumentType::I16 => (d matches DataModel::Number(w) && i16_from_wrapped(w) is Ok),
        ArgumentType::U16 => (d matches DataModel::Number(w) && u16_from_wrapped(w) is Ok),
        ArgumentType::I32 => (d matches DataModel::Number(w) && i32_from_wrapped(w) is Ok),
        ArgumentType::U32 => (d matches DataModel::Number(w) && u32_from_wrapped(w) is Ok),
        ArgumentType::I64 => (d matches DataModel::Number(w) && i64_from_wrapped(w) is Ok),
        ArgumentType::U64 => (d matches DataModel::Number(w) && u64_from_wrapped(w) is Ok),
        ArgumentType::Text => d is Text,
        ArgumentType::Boolean => d is Boolean,
        ArgumentType::Float => d is Float,
        ArgumentType::Vec(inner) => match *inner {
            ArgumentType::I8 => i8_list(d) is Ok,
            ArgumentType::U8 => u8_list(d) is Ok,
            ArgumentType::I16 => i16_list(d) is Ok,
            ArgumentType::U16 => u16_list(d) is Ok,
            ArgumentType::I32 => i32_list(d) is Ok,
            ArgumentType::U32 => u32_list(d) is Ok,
            ArgumentType::I64 => i64_list(d) is Ok,
            ArgumentType::U64 => u64_list(d) is Ok,
            ArgumentType::Text => text_list(d) is Ok,
            ArgumentType::Boolean => bool_list(d) is Ok,
            ArgumentType::Float => (d matches DataModel::Vec(items) && forall|i: int|
                0 <= i < items.len() ==> #[trigger] items[i] is Float),
            ArgumentType::Vec(_) => d is Vec,
        },
    }
}

/// The items of a converted array are the conversions of its items.
proof fn lemma_parse_items_each(t: ArgumentType, items: Seq<JsonValue>)
    requires
        parse_items(t, items) is Ok,
    ensures
        parse_items(t, items)->Ok_0.len() == items.len(),
        forall|i: int|
            0 <= i < items.len() ==> parse_value(t, #[trigger] items[i]) == Ok::<
                DataModel,
                (ValueFault, Seq<usize>),
            >(parse_items(t, items)->Ok_0[i]),
    decreases items.len(),
{
    if items.len() > 0 {
        let rest = items.drop_last();
        lemma_parse_items_each(t, rest);
        assert forall|i: int| 0 <= i < items.len() implies parse_value(t, #[trigger] items[i]) == Ok::<
            DataModel,
            (ValueFault, Seq<usize>),
        >(parse_items(t, items)->Ok_0[i]) by {
            if i < rest.len() {
                assert(rest[i] == items[i]);
            }
        }
    }
}

/// A value converted to a type other than a list fits the Rust type that
/// declares it.
proof fn lemma_parsed_scalar_fits(t: ArgumentType, v: JsonValue)
    requires
        !(t is Vec),
        parse_value(t, v) is Ok,
    ensures
        fits_declared_type(t, parse_value(t, v)->Ok_0),
{
}

/// A JSON value that converts to the type `t` gives a value that fits the
/// Rust type declaring `t`: the conversions that a tool's generated code
/// applies to the values it reads cannot fail.
pub proof fn lemma_parsed_value_fits(t: ArgumentType, v: JsonValue)
    requires
        parse_value(t, v) is Ok,
    ensures
        fits_declared_type(t, parse_value(t, v)->Ok_0),
        !(parse_value(t, v)->Ok_0 is Absent),
{
    if let ArgumentType::Vec(inner) = t {
        if let JsonValue::Array(arr) = v {
            let items = arr@;
            lemma_parse_items_each(*inner, items);
            let ms = parse_items(*inner, items)->Ok_0;
            assert(parse_value(t, v)->Ok_0 == DataModel::Vec(ms));
            if !(*inner is Vec) {
                assert forall|i: int| 0 <= i < ms.len() implies fits_declared_type(*inner, #[trigger] ms[i]) by {
                    assert(parse_value(*inner, items[i]) == Ok::<DataModel, (ValueFault, Seq<usize>)>(ms[i]));
                    lemma_parsed_scalar_fits(*inner, items[i]);
                }
                match *inner {
                    ArgumentType::I8 => lemma_convert_items_ok(ms, crate::data::i8_item_conversion()),
                    ArgumentType::U8 => lemma_convert_items_ok(ms, crate::data::u8_item_conversion()),
                    ArgumentType::I16 => lemma_convert_items_ok(ms, crate::data::i16_item_conversion()),
                    ArgumentType::U16 => lemma_convert_items_ok(ms, crate::data::u16_item_conversion()),
                    ArgumentType::I32 => lemma_convert_items_ok(ms, crate::data::i32_item_conversion()),
                    ArgumentType::U32 => lemma_convert_items_ok(ms, crate::data::u32_item_conversion()),
                    ArgumentType::I64 => lemma_convert_items_ok(ms, crate::data::i64_item_conversion()),
                    ArgumentType::U64 => lemma_convert_items_ok(ms, crate::data::u64_item_conversion()),
                    ArgumentType::Text => lemma_convert_items_ok(ms, crate::data::text_item_conversion()),
                    ArgumentType::Boolean => lemma_convert_items_ok(ms, crate::data::bool_item_conversion()),
                    _ => {},
                }
            }
        }
    } else {
        lemma_parsed_scalar_fits(t, v);
    }
}

/// The outcome for one argument of the definition, given the members of the
/// JSON object: a required argument must be there and not `null`; an
/// optional one that is missing or `null` is `Absent`; a value that is
/// there converts to the argument's type.
pub open spec fn argument_outcome(
    name: Seq<char>,
    arg: IAArgument,
    members: Seq<(String, JsonValue)>,
) -> Result<DataModel, ArgErrorModel> {
    match member(members, name) {
        None => if arg.required {
            Err(ArgErrorModel::MissingRequired(name))
        } else {
            Ok(DataModel::Absent)
        },
        Some(JsonValue::Null) => if arg.required {
            Err(ArgErrorModel::NullRequired(name))
        } else {
            Ok(DataModel::Absent)
        },
        Some(v) => match parse_value(arg.arg_type, v) {
            Ok(d) => Ok(d),
            Err(f) => Err(ArgErrorModel::InvalidValue(name, f.0, f.1)),
        },
    }
}

/// The outcomes for the arguments of the definition, in order: each name
/// with its value, or the error of the first argument that fails.
pub open spec fn arguments_outcome(
    entries: Seq<(Seq<char>, IAArgument)>,
    members: Seq<(String, JsonValue)>,
) -> Result<Seq<(Seq<char>, DataModel)>, ArgErrorModel>
    decreases entries.len(),
{
    if entries.len() == 0 {
        Ok(seq![])
    } else {
        match arguments_outcome(entries.drop_last(), members) {
            Err(e) => Err(e),
            Ok(done) => match argument_outcome(entries.last().0, entries.last().1, members) {
                Err(e) => Err(e),
                Ok(d) => Ok(done.push((entries.last().0, d))),
            },
        }
    }
}

/// The outcome of converting the JSON arguments `json` for a tool whose
/// arguments are `entries`.
pub open spec fn json_args_outcome(
    entries: Seq<(Seq<char>, IAArgument)>,
    json: JsonValue,
) -> Result<Seq<(Seq<char>, DataModel)>, ArgErrorModel> {
    match json {
        JsonValue::Object(members) => arguments_outcome(entries, members@),
        _ => Err(ArgErrorModel::NotAnObject),
    }
}

/// The entries of a map of converted values, with the values as models.
pub open spec fn model_entries(s: Seq<(Seq<char>, WrappedData)>) -> Seq<(Seq<char>, DataModel)> {
    s.map_values(|e: (Seq<char>, WrappedData)| (e.0, data_model(e.1)))
}

proof fn lemma_arguments_error_stays(
    entries: Seq<(Seq<char>, IAArgument)>,
    members: Seq<(String, JsonValue)>,
    n: int,
)
    requires
        0 <= n <= entries.len(),
        arguments_outcome(entries.take(n), members) is Err,
    ensures
        arguments_outcome(entries, members) == arguments_outcome(entries.take(n), members),
    decreases entries.len() - n,
{
    if n < entries.len() {
        assert(entries.take(n + 1).drop_last() =~= entries.take(n));
        lemma_arguments_error_stays(entries, members, n + 1);
    } else {
        assert(entries.take(n) =~= entries);
    }
}

/// Converts the JSON arguments of a tool call into a map from argument name
/// to value, one entry for each argument of the definition, in the
/// definition's order. The arguments must be a JSON object; a required
/// argument must be present and not `null`; an optional argument that is
/// missing or `null` becomes `Absent`; every value present must convert to
/// its argument's type (see `convert_single_arg`). The first argument that
/// fails, in the definition's order, gives the error.
pub fn convert_json_args(tool_description: &IAToolDefinition, json_args: &JsonValue) -> (r:
    Result<StringMap<WrappedData>, ArgError>)
    ensures
        match json_args_outcome(tool_description.arguments@, *json_args) {
            Ok(es) => r is Ok && model_entries(r->Ok_0@) == es,
            Err(e) => r is Err && arg_error_model(r->Err_0) == e,
        },
{
    let members = match json_args {
        JsonValue::Object(m) => m,
        _ => {
            return Err(ArgError::NotAnObject);
        },
    };
    let args = &tool_description.arguments;
    proof {
        use_type_invariant(args);
    }
    let ghost entries = args@;
    let mut parsed: StringMap<WrappedData> = StringMap::new();
    let mut i: usize = 0;
    assert(entries.take(0) =~= Seq::<(Seq<char>, IAArgument)>::empty());
    assert(model_entries(parsed@) =~= Seq::<(Seq<char>, DataModel)>::empty());
    while i < args.len()
        invariant
            i <= entries.len(),
            entries == args@,
            entries == tool_description.arguments@,
            *json_args == JsonValue::Object(*members),
            keys_distinct(entries),
            parsed@.len() == i,
            forall|k: int| 0 <= k < i ==> (#[trigger] parsed@[k]).0 == entries[k].0,
            arguments_outcome(entries.take(i as int), members@) == Ok::<
                Seq<(Seq<char>, DataModel)>,
                ArgErrorModel,
            >(model_entries(parsed@)),
        decreases entries.len() - i,
    {
        let name = args.key_at(i);
        let arg = args.value_at(i);
        assert(entries.take(i + 1).drop_last() =~= entries.take(i as int));
        assert(entries.take(i + 1).last() == entries[i as int]);
        let value: WrappedData = match object_get(members, name) {
            None => if arg.required {
                proof {
                    lemma_arguments_error_stays(entries, members@, i + 1);
                }
                return Err(ArgError::MissingRequired(name.clone()));
            } else {
                WrappedData::Absent
            },
            Some(JsonValue::Null) => if arg.required {
                proof {
                    lemma_arguments_error_stays(entries, members@, i + 1);
                }
                return Err(ArgError::NullRequired(name.clone()));
            } else {
                WrappedData::Absent
            },
            Some(v) => match convert_single_arg(&arg.arg_type, v) {
                Ok(d) => d,
                Err((fault, path)) => {
                    proof {
                        lemma_arguments_error_stays(entries, members@, i + 1);
                    }
                    return Err(ArgError::InvalidValue { name: name.clone(), fault, path });
                },
            },
        };
        let ghost before = parsed@;
        assert(!has_key(before, name@)) by {
            if has_key(before, name@) {
                let p = choose|p: int| 0 <= p < before.len() && #[trigger] before[p].0 == name@;
                assert(entries[p].0 == entries[i as int].0);
            }
        }
        let ghost vm = data_model(value);
        parsed.insert(name.clone(), value);
        assert(parsed@ == before.push((name@, value)));
        assert(model_entries(parsed@) =~= model_entries(before).push((name@, vm)));
        i = i + 1;
    }
    assert(entries.take(entries.len() as int) =~= entries);
    Ok(parsed)
}

/// Converts one JSON value into a value of the type `arg_type`, on the
/// values that convert (see `convert_single_arg`, which also tells the
/// others apart).
pub fn parse_single_arg(arg_type: &ArgumentType, json_value: &JsonValue) -> (r: WrappedData)
    requires
        parse_value(*arg_type, *json_value) is Ok,
    ensures
        data_model(r) == parse_value(*arg_type, *json_value)->Ok_0,
{
    match convert_single_arg(arg_type, json_value) {
        Ok(d) => d,
        Err(_) => {
            proof {
                assert(false);
            }
            WrappedData::Absent
        },
    }
}

/// The outcome of converting the arguments written as the JSON text `text`:
/// the text must be one JSON document, then as `json_args_outcome`.
pub open spec fn json_text_args_outcome(
    entries: Seq<(Seq<char>, IAArgument)>,
    text: Seq<char>,
) -> Result<Seq<(Seq<char>, DataModel)>, ArgErrorModel> {
    match json_text_value(text) {
        None => Err(ArgErrorModel::MalformedJson),
        Some(json) => json_args_outcome(entries, json),
    }
}

/// Converts the arguments of a tool call written as JSON text, on the texts
/// that convert: one entry for each argument of the definition, in order
/// (see `try_parse_json_args`, which also tells the others apart).
pub fn parse_json_args_internal(tool_description: &IAToolDefinition, json_string_args: &str) -> (r:
    StringMap<WrappedData>)
    requires
        json_text_args_outcome(tool_description.arguments@, json_string_args@) is Ok,
    ensures
        model_entries(r@) == json_text_args_outcome(
            tool_description.arguments@,
            json_string_args@,
        )->Ok_0,
{
    match parse_json_text(json_string_args) {
        Some(json) => match convert_json_args(tool_description, &json) {
            Ok(parsed) => parsed,
            Err(_) => {
                proof {
                    assert(false);
                }
                StringMap::new()
            },
        },
        None => {
            proof {
                assert(false);
            }
            StringMap::new()
        },
    }
}

/// Converts the arguments of a tool call written as JSON text, or tells
/// why they do not convert: `MalformedJson` where the text is not one JSON
/// document, else the error of `convert_json_args`.
pub fn try_parse_json_args(tool_description: &IAToolDefinition, json_string_args: &str) -> (r:
    Result<StringMap<WrappedData>, ArgError>)
    ensures
        match json_text_args_outcome(tool_description.arguments@, json_string_args@) {
            Ok(es) => r is Ok && model_entries(r->Ok_0@) == es,
            Err(e) => r is Err && arg_error_model(r->Err_0) == e,
        },
{
    match parse_json_text(json_string_args) {
        None => Err(ArgError::MalformedJson),
        Some(json) => match convert_json_args(tool_description, &json) {
            Err(e) => Err(e),
            Ok(_) => Ok(parse_json_args_internal(tool_description, json_string_args)),
        },
    }
}

/// The converted arguments name exactly the arguments of the definition,
/// in the same order.
pub proof fn lemma_outcome_keys(entries: Seq<(Seq<char>, IAArgument)>, members: Seq<(String, JsonValue)>)
    requires
        arguments_outcome(entries, members) is Ok,
    ensures
        arguments_outcome(entries, members)->Ok_0.len() == entries.len(),
        forall|k: int|
            0 <= k < entries.len() ==> (#[trigger] arguments_outcome(entries, members)->Ok_0[k]).0
                == entries[k].0,
    decreases entries.len(),
{
    if entries.len() > 0 {
        lemma_outcome_keys(entries.drop_last(), members);
    }
}

/// Every argument of a successful conversion is either a value that fits
/// the Rust type its definition declares, or `Absent`, and only optional
/// arguments are `Absent`: the generated code that reads the map never
/// finds a required argument missing or a value it cannot convert.
pub proof fn lemma_outcome_values_fit(
    entries: Seq<(Seq<char>, IAArgument)>,
    members: Seq<(String, JsonValue)>,
)
    requires
        arguments_outcome(entries, members) is Ok,
    ensures
        arguments_outcome(entries, members)->Ok_0.len() == entries.len(),
        forall|k: int|
            0 <= k < entries.len() ==> {
                let d = (#[trigger] arguments_outcome(entries, members)->Ok_0[k]).1;
                &&& d is Absent ==> !entries[k].1.required
                &&& !(d is Absent) ==> fits_declared_type(entries[k].1.arg_type, d)
            },
    decreases entries.len(),
{
    if entries.len() > 0 {
        let rest = entries.drop_last();
        lemma_outcome_values_fit(rest, members);
        let last = entries.last();
        match member(members, last.0) {
            None => {},
            Some(JsonValue::Null) => {},
            Some(v) => {
                lemma_parsed_value_fits(last.1.arg_type, v);
            },
        }
        let out = arguments_outcome(entries, members)->Ok_0;
        assert forall|k: int| 0 <= k < entries.len() implies {
            let d = (#[trigger] out[k]).1;
            &&& d is Absent ==> !entries[k].1.required
            &&& !(d is Absent) ==> fits_declared_type(entries[k].1.arg_type, d)
        } by {
            if k < rest.len() {
                assert(rest[k] == entries[k]);
                assert(out[k] == arguments_outcome(rest, members)->Ok_0[k]);
            }
        }
    }
}

/// Each argument present in the JSON object with a value other than
/// `null` gets exactly the conversion of that value, whatever the value (an
/// empty string included); only an argument that is missing or `null` is
/// `Absent`, and only when it is optional.
pub proof fn lemma_outcome_values_are_conversions(
    entries: Seq<(Seq<char>, IAArgument)>,
    members: Seq<(String, JsonValue)>,
)
    requires
        arguments_outcome(entries, members) is Ok,
    ensures
        arguments_outcome(entries, members)->Ok_0.len() == entries.len(),
        forall|k: int|
            0 <= k < entries.len() ==> {
                let d = (#[trigger] arguments_outcome(entries, members)->Ok_0[k]).1;
                let found = member(members, entries[k].0);
                &&& (found is Some && !(found->Some_0 is Null)) ==> parse_value(entries[k].1.arg_type, found->Some_0)
                    == Ok::<DataModel, (ValueFault, Seq<usize>)>(d)
                &&& (found is None || found == Some(JsonValue::Null)) ==> (d is Absent
                    && !entries[k].1.required)
            },
    decreases entries.len(),
{
    if entries.len() > 0 {
        let rest = entries.drop_last();
        lemma_outcome_values_are_conversions(rest, members);
        let out = arguments_outcome(entries, members)->Ok_0;
        assert forall|k: int| 0 <= k < entries.len() implies {
            let d = (#[trigger] out[k]).1;
            let found = member(members, entries[k].0);
            &&& (found is Some && !(found->Some_0 is Null)) ==> parse_value(entries[k].1.arg_type, found->Some_0)
                == Ok::<DataModel, (ValueFault, Seq<usize>)>(d)
            &&& (found is None || found == Some(JsonValue::Null)) ==> (d is Absent
                && !entries[k].1.required)
        } by {
            if k < rest.len() {
                assert(rest[k] == entries[k]);
                assert(out[k] == arguments_outcome(rest, members)->Ok_0[k]);
            }
        }
    }
}

/// A JSON string given for a text argument converts to that very text,
/// the empty string included.
pub proof fn lemma_text_value_kept(s: String)
    ensures
        parse_value(ArgumentType::Text, JsonValue::String(s)) == Ok::<
            DataModel,
            (ValueFault, Seq<usize>),
        >(DataModel::Text(s@)),
{
}

} // verus!
