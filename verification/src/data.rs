//! The typed values that a tool's arguments are converted into, and the
//! conversions out of them into plain Rust types.

use vstd::prelude::*;
use vstd::std_specs::convert::TryFromSpecImpl;
use crate::json::JsonNumber;
use crate::int_conversions::{
    i8_from_wrapped, u8_from_wrapped, i16_from_wrapped, u16_from_wrapped, i32_from_wrapped,
    u32_from_wrapped, i64_from_wrapped, u64_from_wrapped,
};

verus! {

/// An integer of one of the integer types.
#[derive(Debug, Clone, Copy, PartialEq, Eq)]
pub enum WrappedInt {
    I8(i8),
    U8(u8),
    I16(i16),
    U16(u16),
    I32(i32),
    U32(u32),
    I64(i64),
    U64(u64),
}

/// The value of a wrapped integer.
pub open spec fn wrapped_value(w: WrappedInt) -> int {
    match w {
        WrappedInt::I8(v) => v as int,
        WrappedInt::U8(v) => v as int,
        WrappedInt::I16(v) => v as int,
        WrappedInt::U16(v) => v as int,
        WrappedInt::I32(v) => v as int,
        WrappedInt::U32(v) => v as int,
        WrappedInt::I64(v) => v as int,
        WrappedInt::U64(v) => v as int,
    }
}

/// Where a floating-point argument comes from: a JSON number, or a text
/// that `f64`'s `FromStr` accepts. Turning either into an `f64` is left to
/// the caller, since this library holds no floating-point values.
#[derive(Debug, Clone)]
pub enum FloatSource {
    Number(JsonNumber),
    Text(String),
}

/// An argument value converted from JSON.
#[derive(Debug)]
pub enum WrappedData {
    Number(WrappedInt),
    Text(String),
    Boolean(bool),
    Float(FloatSource),
    Vec(Vec<WrappedData>),
    /// An optional argument that was left out or given as `null`.
    Absent,
}

/// The model of a floating-point source.
pub enum FloatModel {
    Number(JsonNumber),
    Text(Seq<char>),
}

/// The model of an argument value: the same shape with texts and lists as
/// sequences.
pub enum DataModel {
    Number(WrappedInt),
    Text(Seq<char>),
    Boolean(bool),
    Float(FloatModel),
    Vec(Seq<DataModel>),
    Absent,
}

/// The model of `d`.
pub open spec fn data_model(d: WrappedData) -> DataModel
    decreases d,
{
    match d {
        WrappedData::Number(w) => DataModel::Number(w),
        WrappedData::Text(s) => DataModel::Text(s@),
        WrappedData::Boolean(b) => DataModel::Boolean(b),
        WrappedData::Float(FloatSource::Number(n)) => DataModel::Float(FloatModel::Number(n)),
        WrappedData::Float(FloatSource::Text(s)) => DataModel::Float(FloatModel::Text(s@)),
        WrappedData::Vec(v) => DataModel::Vec(
            Seq::new(
                v@.len(),
                |i: int|
                    if 0 <= i < v@.len() {
                        data_model(v@[i])
                    } else {
                        DataModel::Absent
                    },
            ),
        ),
        WrappedData::Absent => DataModel::Absent,
    }
}

/// The models of the values `v`.
pub open spec fn data_models(v: Seq<WrappedData>) -> Seq<DataModel> {
    Seq::new(v.len(), |i: int| data_model(v[i]))
}

/// The model of a list value is the list of its items' models.
pub proof fn lemma_data_model_vec(v: Vec<WrappedData>)
    ensures
        data_model(WrappedData::Vec(v)) == DataModel::Vec(data_models(v@)),
{
    let a = data_model(WrappedData::Vec(v))->Vec_0;
    assert(a =~= data_models(v@));
}

impl Clone for WrappedData {
    /// A copy with the same model.
    fn clone(&self) -> (r: Self)
        ensures
            data_model(r) == data_model(*self),
        decreases self,
    {
        match self {
            WrappedData::Number(w) => WrappedData::Number(*w),
            WrappedData::Text(s) => WrappedData::Text(s.clone()),
            WrappedData::Boolean(b) => WrappedData::Boolean(*b),
            WrappedData::Float(FloatSource::Number(n)) => WrappedData::Float(FloatSource::Number(*n)),
            WrappedData::Float(FloatSource::Text(s)) => WrappedData::Float(FloatSource::Text(s.clone())),
            WrappedData::Vec(items) => {
                let mut out: Vec<WrappedData> = Vec::new();
                let mut i: usize = 0;
                while i < items.len()
                    invariant
                        *self == WrappedData::Vec(*items),
                        i <= items@.len(),
                        out@.len() == i,
                        forall|k: int| 0 <= k < i ==> data_model(#[trigger] out@[k]) == data_model(items@[k]),
                    decreases items@.len() - i,
                {
                    proof {
                        assert(decreases_to!(*self => (*self)->Vec_0));
                        assert(decreases_to!(*items => items@));
                        assert(decreases_to!(items@ => items@[i as int]));
                    }
                    let c = items[i].clone();
                    out.push(c);
                    i = i + 1;
                }
                proof {
                    lemma_data_model_vec(*items);
                    lemma_data_model_vec(out);
                    assert(data_models(out@) =~= data_models(items@));
                }
                WrappedData::Vec(out)
            },
            WrappedData::Absent => WrappedData::Absent,
        }
    }
}

impl TryFrom<WrappedData> for String {
    type Error = &'static str;

    fn try_from(wrapped: WrappedData) -> (r: Result<String, &'static str>) {
        match wrapped {
            WrappedData::Text(s) => Ok(s),
            _ => Err("WrappedData is not a Text"),
        }
    }
}

impl TryFromSpecImpl<WrappedData> for String {
    open spec fn obeys_try_from_spec() -> bool {
        true
    }

    open spec fn try_from_spec(wrapped: WrappedData) -> Result<String, &'static str> {
        match wrapped {
            WrappedData::Text(s) => Ok(s),
            _ => Err("WrappedData is not a Text"),
        }
    }
}

impl TryFrom<WrappedData> for bool {
    type Error = &'static str;

    fn try_from(wrapped: WrappedData) -> (r: Result<bool, &'static str>) {
        match wrapped {
            WrappedData::Boolean(b) => Ok(b),
            _ => Err("WrappedData is not a Boolean"),
        }
    }
}

impl TryFromSpecImpl<WrappedData> for bool {
    open spec fn obeys_try_from_spec() -> bool {
        true
    }

    open spec fn try_from_spec(wrapped: WrappedData) -> Result<bool, &'static str> {
        match wrapped {
            WrappedData::Boolean(b) => Ok(b),
            _ => Err("WrappedData is not a Boolean"),
        }
    }
}

/// Converting the items of a list one by one: the converted items, or the
/// error of the first item that does not convert.
pub open spec fn convert_items<T>(
    items: Seq<DataModel>,
    f: spec_fn(DataModel) -> Result<T, &'static str>,
) -> Result<Seq<T>, &'static str>
    decreases items.len(),
{
    if items.len() == 0 {
        Ok(seq![])
    } else {
        match convert_items(items.drop_last(), f) {
            Err(e) => Err(e),
            Ok(done) => match f(items.last()) {
                Err(e) => Err(e),
                Ok(x) => Ok(done.push(x)),
            },
        }
    }
}

/// Once an item fails, converting more items after it keeps that error.
pub proof fn lemma_convert_items_error_stays<T>(
    items: Seq<DataModel>,
    f: spec_fn(DataModel) -> Result<T, &'static str>,
    n: int,
)
    requires
        0 <= n <= items.len(),
        convert_items(items.take(n), f) is Err,
    ensures
        convert_items(items, f) == convert_items(items.take(n), f),
    decreases items.len() - n,
{
    if n < items.len() {
        assert(items.take(n + 1).drop_last() =~= items.take(n));
        lemma_convert_items_error_stays(items, f, n + 1);
    } else {
        assert(items.take(n) =~= items);
    }
}

/// Converting items that each convert succeeds.
pub proof fn lemma_convert_items_ok<T>(items: Seq<DataModel>, f: spec_fn(DataModel) -> Result<T, &'static str>)
    requires
        forall|i: int| 0 <= i < items.len() ==> (#[trigger] f(items[i])) is Ok,
    ensures
        convert_items(items, f) is Ok,
    decreases items.len(),
{
    if items.len() > 0 {
        let rest = items.drop_last();
        assert forall|i: int| 0 <= i < rest.len() implies (#[trigger] f(rest[i])) is Ok by {
            assert(rest[i] == items[i]);
        }
        lemma_convert_items_ok(rest, f);
        assert(f(items[items.len() - 1]) is Ok);
    }
}

/// The result of a list conversion, seen through the view of the vector.
pub open spec fn list_result_is<T>(r: Result<Vec<T>, &'static str>, s: Result<Seq<T>, &'static str>) -> bool {
    match s {
        Ok(items) => r is Ok && r->Ok_0@ == items,
        Err(e) => r == Err::<Vec<T>, &'static str>(e),
    }
}

/// Converting one list item to `i8`.
pub open spec fn i8_item(d: DataModel) -> Result<i8, &'static str> {
    match d {
        DataModel::Number(w) => i8_from_wrapped(w),
        _ => Err("Element in WrappedData::Vec is not a Number for Vec<i8>"),
    }
}

/// The item conversion to `i8`, as a function value.
pub open spec fn i8_item_conversion() -> spec_fn(DataModel) -> Result<i8, &'static str> {
    |d: DataModel| i8_item(d)
}

/// Converting the items of a list to `i8`.
pub open spec fn i8_items(items: Seq<DataModel>) -> Result<Seq<i8>, &'static str> {
    convert_items(items, i8_item_conversion())
}

/// Converting a value to `Vec<i8>`: every item a `Number` in the range of `i8`.
pub open spec fn i8_list(d: DataModel) -> Result<Seq<i8>, &'static str> {
    match d {
        DataModel::Vec(items) => i8_items(items),
        _ => Err("WrappedData is not a Vec for Vec<i8>"),
    }
}

/// Converts a list value into `Vec<i8>`; the error names the first
/// item that does not convert, or says that the value is not a list.
pub fn i8_list_from(wrapped: WrappedData) -> (r: Result<Vec<i8>, &'static str>)
    ensures
        list_result_is(r, i8_list(data_model(wrapped))),
{
    let ghost whole = data_model(wrapped);
    match wrapped {
        WrappedData::Vec(items) => {
            proof {
                lemma_data_model_vec(items);
            }
            let ghost models = data_models(items@);
            let mut out: Vec<i8> = Vec::new();
            let mut i: usize = 0;
            assert(models.take(0) =~= Seq::<DataModel>::empty());
            while i < items.len()
                invariant
                    i <= items@.len(),
                    models == data_models(items@),
                    whole == data_model(wrapped),
                    whole == DataModel::Vec(models),
                    i8_items(models.take(i as int)) == Ok::<Seq<i8>, &'static str>(out@),
                decreases items@.len() - i,
            {
                assert(models.take(i + 1).drop_last() =~= models.take(i as int));
                assert(models.take(i + 1).last() == data_model(items@[i as int]));
                let step = match &items[i] {
                    WrappedData::Number(w) => i8::try_from(*w),
                    _ => Err("Element in WrappedData::Vec is not a Number for Vec<i8>"),
                };
                match step {
                    Ok(x) => out.push(x),
                    Err(e) => {
                        proof {
                            lemma_convert_items_error_stays(models, i8_item_conversion(), i + 1);
                        }
                        return Err(e);
                    },
                }
                i = i + 1;
            }
            assert(models.take(items@.len() as int) =~= models);
            Ok(out)
        },
        _ => Err("WrappedData is not a Vec for Vec<i8>"),
    }
}

/// Converting one list item to `u8`.
pub open spec fn u8_item(d: DataModel) -> Result<u8, &'static str> {
    match d {
        DataModel::Number(w) => u8_from_wrapped(w),
        _ => Err("Element in WrappedData::Vec is not a Number for Vec<u8>"),
    }
}

/// The item conversion to `u8`, as a function value.
pub open spec fn u8_item_conversion() -> spec_fn(DataModel) -> Result<u8, &'static str> {
    |d: DataModel| u8_item(d)
}

/// Converting the items of a list to `u8`.
pub open spec fn u8_items(items: Seq<DataModel>) -> Result<Seq<u8>, &'static str> {
    convert_items(items, u8_item_conversion())
}

/// Converting a value to `Vec<u8>`: every item a `Number` in the range of `u8`.
pub open spec fn u8_list(d: DataModel) -> Result<Seq<u8>, &'static str> {
    match d {
        DataModel::Vec(items) => u8_items(items),
        _ => Err("WrappedData is not a Vec for Vec<u8>"),
    }
}

/// Converts a list value into `Vec<u8>`; the error names the first
/// item that does not convert, or says that the value is not a list.
pub fn u8_list_from(wrapped: WrappedData) -> (r: Result<Vec<u8>, &'static str>)
    ensures
        list_result_is(r, u8_list(data_model(wrapped))),
{
    let ghost whole = data_model(wrapped);
    match wrapped {
        WrappedData::Vec(items) => {
            proof {
                lemma_data_model_vec(items);
            }
            let ghost models = data_models(items@);
            let mut out: Vec<u8> = Vec::new();
            let mut i: usize = 0;
            assert(models.take(0) =~= Seq::<DataModel>::empty());
            while i < items.len()
                invariant
                    i <= items@.len(),
                    models == data_models(items@),
                    whole == data_model(wrapped),
                    whole == DataModel::Vec(models),
                    u8_items(models.take(i as int)) == Ok::<Seq<u8>, &'static str>(out@),
                decreases items@.len() - i,
            {
                assert(models.take(i + 1).drop_last() =~= models.take(i as int));
                assert(models.take(i + 1).last() == data_model(items@[i as int]));
                let step = match &items[i] {
                    WrappedData::Number(w) => u8::try_from(*w),
                    _ => Err("Element in WrappedData::Vec is not a Number for Vec<u8>"),
                };
                match step {
                    Ok(x) => out.push(x),
                    Err(e) => {
                        proof {
                            lemma_convert_items_error_stays(models, u8_item_conversion(), i + 1);
                        }
                        return Err(e);
                    },
                }
                i = i + 1;
            }
            assert(models.take(items@.len() as int) =~= models);
            Ok(out)
        },
        _ => Err("WrappedData is not a Vec for Vec<u8>"),
    }
}

/// Converting one list item to `i16`.
pub open spec fn i16_item(d: DataModel) -> Result<i16, &'static str> {
    match d {
        DataModel::Number(w) => i16_from_wrapped(w),
        _ => Err("Element in WrappedData::Vec is not a Number for Vec<i16>"),
    }
}

/// The item conversion to `i16`, as a function value.
pub open spec fn i16_item_conversion() -> spec_fn(DataModel) -> Result<i16, &'static str> {
    |d: DataModel| i16_item(d)
}

/// Converting the items of a list to `i16`.
pub open spec fn i16_items(items: Seq<DataModel>) -> Result<Seq<i16>, &'static str> {
    convert_items(items, i16_item_conversion())
}

/// Converting a value to `Vec<i16>`: every item a `Number` in the range of `i16`.
pub open spec fn i16_list(d: DataModel) -> Result<Seq<i16>, &'static str> {
    match d {
        DataModel::Vec(items) => i16_items(items),
        _ => Err("WrappedData is not a Vec for Vec<i16>"),
    }
}

/// Converts a list value into `Vec<i16>`; the error names the first
/// item that does not convert, or says that the value is not a list.
pub fn i16_list_from(wrapped: WrappedData) -> (r: Result<Vec<i16>, &'static str>)
    ensures
        list_result_is(r, i16_list(data_model(wrapped))),
{
    let ghost whole = data_model(wrapped);
    match wrapped {
        WrappedData::Vec(items) => {
            proof {
                lemma_data_model_vec(items);
            }
            let ghost models = data_models(items@);
            let mut out: Vec<i16> = Vec::new();
            let mut i: usize = 0;
            assert(models.take(0) =~= Seq::<DataModel>::empty());
            while i < items.len()
                invariant
                    i <= items@.len(),
                    models == data_models(items@),
                    whole == data_model(wrapped),
                    whole == DataModel::Vec(models),
                    i16_items(models.take(i as int)) == Ok::<Seq<i16>, &'static str>(out@),
                decreases items@.len() - i,
            {
                assert(models.take(i + 1).drop_last() =~= models.take(i as int));
                assert(models.take(i + 1).last() == data_model(items@[i as int]));
                let step = match &items[i] {
                    WrappedData::Number(w) => i16::try_from(*w),
                    _ => Err("Element in WrappedData::Vec is not a Number for Vec<i16>"),
                };
                match step {
                    Ok(x) => out.push(x),
                    Err(e) => {
                        proof {
                            lemma_convert_items_error_stays(models, i16_item_conversion(), i + 1);
                        }
                        return Err(e);
                    },
                }
                i = i + 1;
            }
            assert(models.take(items@.len() as int) =~= models);
            Ok(out)
        },
        _ => Err("WrappedData is not a Vec for Vec<i16>"),
    }
}

/// Converting one list item to `u16`.
pub open spec fn u16_item(d: DataModel) -> Result<u16, &'static str> {
    match d {
        DataModel::Number(w) => u16_from_wrapped(w),
        _ => Err("Element in WrappedData::Vec is not a Number for Vec<u16>"),
    }
}

/// The item conversion to `u16`, as a function value.
pub open spec fn u16_item_conversion() -> spec_fn(DataModel) -> Result<u16, &'static str> {
    |d: DataModel| u16_item(d)
}

/// Converting the items of a list to `u16`.
pub open spec fn u16_items(items: Seq<DataModel>) -> Result<Seq<u16>, &'static str> {
    convert_items(items, u16_item_conversion())
}

/// Converting a value to `Vec<u16>`: every item a `Number` in the range of `u16`.
pub open spec fn u16_list(d: DataModel) -> Result<Seq<u16>, &'static str> {
    match d {
        DataModel::Vec(items) => u16_items(items),
        _ => Err("WrappedData is not a Vec for Vec<u16>"),
    }
}

/// Converts a list value into `Vec<u16>`; the error names the first
/// item that does not convert, or says that the value is not a list.
pub fn u16_list_from(wrapped: WrappedData) -> (r: Result<Vec<u16>, &'static str>)
    ensures
        list_result_is(r, u16_list(data_model(wrapped))),
{
    let ghost whole = data_model(wrapped);
    match wrapped {
        WrappedData::Vec(items) => {
            proof {
                lemma_data_model_vec(items);
            }
            let ghost models = data_models(items@);
            let mut out: Vec<u16> = Vec::new();
            let mut i: usize = 0;
            assert(models.take(0) =~= Seq::<DataModel>::empty());
            while i < items.len()
                invariant
                    i <= items@.len(),
                    models == data_models(items@),
                    whole == data_model(wrapped),
                    whole == DataModel::Vec(models),
                    u16_items(models.take(i as int)) == Ok::<Seq<u16>, &'static str>(out@),
                decreases items@.len() - i,
            {
                assert(models.take(i + 1).drop_last() =~= models.take(i as int));
                assert(models.take(i + 1).last() == data_model(items@[i as int]));
                let step = match &items[i] {
                    WrappedData::Number(w) => u16::try_from(*w),
                    _ => Err("Element in WrappedData::Vec is not a Number for Vec<u16>"),
                };
                match step {
                    Ok(x) => out.push(x),
                    Err(e) => {
                        proof {
                            lemma_convert_items_error_stays(models, u16_item_conversion(), i + 1);
                        }
                        return Err(e);
                    },
                }
                i = i + 1;
            }
            assert(models.take(items@.len() as int) =~= models);
            Ok(out)
        },
        _ => Err("WrappedData is not a Vec for Vec<u16>"),
    }
}

/// Converting one list item to `i32`.
pub open spec fn i32_item(d: DataModel) -> Result<i32, &'static str> {
    match d {
        DataModel::Number(w) => i32_from_wrapped(w),
        _ => Err("Element in WrappedData::Vec is not a Number for Vec<i32>"),
    }
}

/// The item conversion to `i32`, as a function value.
pub open spec fn i32_item_conversion() -> spec_fn(DataModel) -> Result<i32, &'static str> {
    |d: DataModel| i32_item(d)
}

/// Converting the items of a list to `i32`.
pub open spec fn i32_items(items: Seq<DataModel>) -> Result<Seq<i32>, &'static str> {
    convert_items(items, i32_item_conversion())
}

/// Converting a value to `Vec<i32>`: every item a `Number` in the range of `i32`.
pub open spec fn i32_list(d: DataModel) -> Result<Seq<i32>, &'static str> {
    match d {
        DataModel::Vec(items) => i32_items(items),
        _ => Err("WrappedData is not a Vec for Vec<i32>"),
    }
}

/// Converts a list value into `Vec<i32>`; the error names the first
/// item that does not convert, or says that the value is not a list.
pub fn i32_list_from(wrapped: WrappedData) -> (r: Result<Vec<i32>, &'static str>)
    ensures
        list_result_is(r, i32_list(data_model(wrapped))),
{
    let ghost whole = data_model(wrapped);
    match wrapped {
        WrappedData::Vec(items) => {
            proof {
                lemma_data_model_vec(items);
            }
            let ghost models = data_models(items@);
            let mut out: Vec<i32> = Vec::new();
            let mut i: usize = 0;
            assert(models.take(0) =~= Seq::<DataModel>::empty());
            while i < items.len()
                invariant
                    i <= items@.len(),
                    models == data_models(items@),
                    whole == data_model(wrapped),
                    whole == DataModel::Vec(models),
                    i32_items(models.take(i as int)) == Ok::<Seq<i32>, &'static str>(out@),
                decreases items@.len() - i,
            {
                assert(models.take(i + 1).drop_last() =~= models.take(i as int));
                assert(models.take(i + 1).last() == data_model(items@[i as int]));
                let step = match &items[i] {
                    WrappedData::Number(w) => i32::try_from(*w),
                    _ => Err("Element in WrappedData::Vec is not a Number for Vec<i32>"),
                };
                match step {
                    Ok(x) => out.push(x),
                    Err(e) => {
                        proof {
                            lemma_convert_items_error_stays(models, i32_item_conversion(), i + 1);
                        }
                        return Err(e);
                    },
                }
                i = i + 1;
            }
            assert(models.take(items@.len() as int) =~= models);
            Ok(out)
        },
        _ => Err("WrappedData is not a Vec for Vec<i32>"),
    }
}

/// Converting one list item to `u32`.
pub open spec fn u32_item(d: DataModel) -> Result<u32, &'static str> {
    match d {
        DataModel::Number(w) => u32_from_wrapped(w),
        _ => Err("Element in WrappedData::Vec is not a Number for Vec<u32>"),
    }
}

/// The item conversion to `u32`, as a function value.
pub open spec fn u32_item_conversion() -> spec_fn(DataModel) -> Result<u32, &'static str> {
    |d: DataModel| u32_item(d)
}

/// Converting the items of a list to `u32`.
pub open spec fn u32_items(items: Seq<DataModel>) -> Result<Seq<u32>, &'static str> {
    convert_items(items, u32_item_conversion())
}

/// Converting a value to `Vec<u32>`: every item a `Number` in the range of `u32`.
pub open spec fn u32_list(d: DataModel) -> Result<Seq<u32>, &'static str> {
    match d {
        DataModel::Vec(items) => u32_items(items),
        _ => Err("WrappedData is not a Vec for Vec<u32>"),
    }
}

/// Converts a list value into `Vec<u32>`; the error names the first
/// item that does not convert, or says that the value is not a list.
pub fn u32_list_from(wrapped: WrappedData) -> (r: Result<Vec<u32>, &'static str>)
    ensures
        list_result_is(r, u32_list(data_model(wrapped))),
{
    let ghost whole = data_model(wrapped);
    match wrapped {
        WrappedData::Vec(items) => {
            proof {
                lemma_data_model_vec(items);
            }
            let ghost models = data_models(items@);
            let mut out: Vec<u32> = Vec::new();
            let mut i: usize = 0;
            assert(models.take(0) =~= Seq::<DataModel>::empty());
            while i < items.len()
                invariant
                    i <= items@.len(),
                    models == data_models(items@),
                    whole == data_model(wrapped),
                    whole == DataModel::Vec(models),
                    u32_items(models.take(i as int)) == Ok::<Seq<u32>, &'static str>(out@),
                decreases items@.len() - i,
            {
                assert(models.take(i + 1).drop_last() =~= models.take(i as int));
                assert(models.take(i + 1).last() == data_model(items@[i as int]));
                let step = match &items[i] {
                    WrappedData::Number(w) => u32::try_from(*w),
                    _ => Err("Element in WrappedData::Vec is not a Number for Vec<u32>"),
                };
                match step {
                    Ok(x) => out.push(x),
                    Err(e) => {
                        proof {
                            lemma_convert_items_error_stays(models, u32_item_conversion(), i + 1);
                        }
                        return Err(e);
                    },
                }
                i = i + 1;
            }
            assert(models.take(items@.len() as int) =~= models);
            Ok(out)
        },
        _ => Err("WrappedData is not a Vec for Vec<u32>"),
    }
}

/// Converting one list item to `i64`.
pub open spec fn i64_item(d: DataModel) -> Result<i64, &'static str> {
    match d {
        DataModel::Number(w) => i64_from_wrapped(w),
        _ => Err("Element in WrappedData::Vec is not a Number for Vec<i64>"),
    }
}

/// The item conversion to `i64`, as a function value.
pub open spec fn i64_item_conversion() -> spec_fn(DataModel) -> Result<i64, &'static str> {
    |d: DataModel| i64_item(d)
}

/// Converting the items of a list to `i64`.
pub open spec fn i64_items(items: Seq<DataModel>) -> Result<Seq<i64>, &'static str> {
    convert_items(items, i64_item_conversion())
}

/// Converting a value to `Vec<i64>`: every item a `Number` in the range of `i64`.
pub open spec fn i64_list(d: DataModel) -> Result<Seq<i64>, &'static str> {
    match d {
        DataModel::Vec(items) => i64_items(items),
        _ => Err("WrappedData is not a Vec for Vec<i64>"),
    }
}

/// Converts a list value into `Vec<i64>`; the error names the first
/// item that does not convert, or says that the value is not a list.
pub fn i64_list_from(wrapped: WrappedData) -> (r: Result<Vec<i64>, &'static str>)
    ensures
        list_result_is(r, i64_list(data_model(wrapped))),
{
    let ghost whole = data_model(wrapped);
    match wrapped {
        WrappedData::Vec(items) => {
            proof {
                lemma_data_model_vec(items);
            }
            let ghost models = data_models(items@);
            let mut out: Vec<i64> = Vec::new();
            let mut i: usize = 0;
            assert(models.take(0) =~= Seq::<DataModel>::empty());
            while i < items.len()
                invariant
                    i <= items@.len(),
                    models == data_models(items@),
                    whole == data_model(wrapped),
                    whole == DataModel::Vec(models),
                    i64_items(models.take(i as int)) == Ok::<Seq<i64>, &'static str>(out@),
                decreases items@.len() - i,
            {
                assert(models.take(i + 1).drop_last() =~= models.take(i as int));
                assert(models.take(i + 1).last() == data_model(items@[i as int]));
                let step = match &items[i] {
                    WrappedData::Number(w) => i64::try_from(*w),
                    _ => Err("Element in WrappedData::Vec is not a Number for Vec<i64>"),
                };
                match step {
                    Ok(x) => out.push(x),
                    Err(e) => {
                        proof {
                            lemma_convert_items_error_stays(models, i64_item_conversion(), i + 1);
                        }
                        return Err(e);
                    },
                }
                i = i + 1;
            }
            assert(models.take(items@.len() as int) =~= models);
            Ok(out)
        },
        _ => Err("WrappedData is not a Vec for Vec<i64>"),
    }
}

/// Converting one list item to `u64`.
pub open spec fn u64_item(d: DataModel) -> Result<u64, &'static str> {
    match d {
        DataModel::Number(w) => u64_from_wrapped(w),
        _ => Err("Element in WrappedData::Vec is not a Number for Vec<u64>"),
    }
}

/// The item conversion to `u64`, as a function value.
pub open spec fn u64_item_conversion() -> spec_fn(DataModel) -> Result<u64, &'static str> {
    |d: DataModel| u64_item(d)
}

/// Converting the items of a list to `u64`.
pub open spec fn u64_items(items: Seq<DataModel>) -> Result<Seq<u64>, &'static str> {
    convert_items(items, u64_item_conversion())
}

/// Converting a value to `Vec<u64>`: every item a `Number` in the range of `u64`.
pub open spec fn u64_list(d: DataModel) -> Result<Seq<u64>, &'static str> {
    match d {
        DataModel::Vec(items) => u64_items(items),
        _ => Err("WrappedData is not a Vec for Vec<u64>"),
    }
}

/// Converts a list value into `Vec<u64>`; the error names the first
/// item that does not convert, or says that the value is not a list.
pub fn u64_list_from(wrapped: WrappedData) -> (r: Result<Vec<u64>, &'static str>)
    ensures
        list_result_is(r, u64_list(data_model(wrapped))),
{
    let ghost whole = data_model(wrapped);
    match wrapped {
        WrappedData::Vec(items) => {
            proof {
                lemma_data_model_vec(items);
            }
            let ghost models = data_models(items@);
            let mut out: Vec<u64> = Vec::new();
            let mut i: usize = 0;
            assert(models.take(0) =~= Seq::<DataModel>::empty());
            while i < items.len()
                invariant
                    i <= items@.len(),
                    models == data_models(items@),
                    whole == data_model(wrapped),
                    whole == DataModel::Vec(models),
                    u64_items(models.take(i as int)) == Ok::<Seq<u64>, &'static str>(out@),
                decreases items@.len() - i,
            {
                assert(models.take(i + 1).drop_last() =~= models.take(i as int));
                assert(models.take(i + 1).last() == data_model(items@[i as int]));
                let step = match &items[i] {
                    WrappedData::Number(w) => u64::try_from(*w),
                    _ => Err("Element in WrappedData::Vec is not a Number for Vec<u64>"),
                };
                match step {
                    Ok(x) => out.push(x),
                    Err(e) => {
                        proof {
                            lemma_convert_items_error_stays(models, u64_item_conversion(), i + 1);
                        }
                        return Err(e);
                    },
                }
                i = i + 1;
            }
            assert(models.take(items@.len() as int) =~= models);
            Ok(out)
        },
        _ => Err("WrappedData is not a Vec for Vec<u64>"),
    }
}

/// Converting one list item to `bool`.
pub open spec fn bool_item(d: DataModel) -> Result<bool, &'static str> {
    match d {
        DataModel::Boolean(b) => Ok(b),
        _ => Err("Element in WrappedData::Vec is not a Boolean for Vec<bool>"),
    }
}

/// The item conversion to `bool`, as a function value.
pub open spec fn bool_item_conversion() -> spec_fn(DataModel) -> Result<bool, &'static str> {
    |d: DataModel| bool_item(d)
}

/// Converting the items of a list to `bool`.
pub open spec fn bool_items(items: Seq<DataModel>) -> Result<Seq<bool>, &'static str> {
    convert_items(items, bool_item_conversion())
}

/// Converting a value to `Vec<bool>`: every item a `Boolean`.
pub open spec fn bool_list(d: DataModel) -> Result<Seq<bool>, &'static str> {
    match d {
        DataModel::Vec(items) => bool_items(items),
        _ => Err("WrappedData is not a Vec for Vec<bool>"),
    }
}

/// Converts a list value into `Vec<bool>`; the error names the first
/// item that does not convert, or says that the value is not a list.
pub fn bool_list_from(wrapped: WrappedData) -> (r: Result<Vec<bool>, &'static str>)
    ensures
        list_result_is(r, bool_list(data_model(wrapped))),
{
    let ghost whole = data_model(wrapped);
    match wrapped {
        WrappedData::Vec(items) => {
            proof {
                lemma_data_model_vec(items);
            }
            let ghost models = data_models(items@);
            let mut out: Vec<bool> = Vec::new();
            let mut i: usize = 0;
            assert(models.take(0) =~= Seq::<DataModel>::empty());
            while i < items.len()
                invariant
                    i <= items@.len(),
                    models == data_models(items@),
                    whole == data_model(wrapped),
                    whole == DataModel::Vec(models),
                    bool_items(models.take(i as int)) == Ok::<Seq<bool>, &'static str>(out@),
                decreases items@.len() - i,
            {
                assert(models.take(i + 1).drop_last() =~= models.take(i as int));
                assert(models.take(i + 1).last() == data_model(items@[i as int]));
                let step: Result<bool, &'static str> = match &items[i] {
                    WrappedData::Boolean(b) => Ok(*b),
                    _ => Err("Element in WrappedData::Vec is not a Boolean for Vec<bool>"),
                };
                match step {
                    Ok(x) => out.push(x),
                    Err(e) => {
                        proof {
                            lemma_convert_items_error_stays(models, bool_item_conversion(), i + 1);
                        }
                        return Err(e);
                    },
                }
                i = i + 1;
            }
            assert(models.take(items@.len() as int) =~= models);
            Ok(out)
        },
        _ => Err("WrappedData is not a Vec for Vec<bool>"),
    }
}

/// Converting one list item to a text.
pub open spec fn text_item(d: DataModel) -> Result<Seq<char>, &'static str> {
    match d {
        DataModel::Text(s) => Ok(s),
        _ => Err("Element in WrappedData::Vec is not a Text for Vec<String>"),
    }
}

/// The item conversion to texts, as a function value.
pub open spec fn text_item_conversion() -> spec_fn(DataModel) -> Result<Seq<char>, &'static str> {
    |d: DataModel| text_item(d)
}

/// Converting the items of a list to texts.
pub open spec fn text_items(items: Seq<DataModel>) -> Result<Seq<Seq<char>>, &'static str> {
    convert_items(items, text_item_conversion())
}

/// Converting a value to `Vec<String>`: every item a `Text`.
pub open spec fn text_list(d: DataModel) -> Result<Seq<Seq<char>>, &'static str> {
    match d {
        DataModel::Vec(items) => text_items(items),
        _ => Err("WrappedData is not a Vec for Vec<String>"),
    }
}

/// The views of a sequence of strings.
pub open spec fn text_views(v: Seq<String>) -> Seq<Seq<char>> {
    v.map_values(|s: String| s@)
}

/// Converts a list value into `Vec<String>`; the error names the first item
/// that is not a text, or says that the value is not a list.
pub fn text_list_from(wrapped: WrappedData) -> (r: Result<Vec<String>, &'static str>)
    ensures
        match text_list(data_model(wrapped)) {
            Ok(items) => r is Ok && text_views(r->Ok_0@) == items,
            Err(e) => r == Err::<Vec<String>, &'static str>(e),
        },
{
    let ghost whole = data_model(wrapped);
    match wrapped {
        WrappedData::Vec(items) => {
            proof {
                lemma_data_model_vec(items);
            }
            let ghost models = data_models(items@);
            let mut out: Vec<String> = Vec::new();
            let mut i: usize = 0;
            assert(models.take(0) =~= Seq::<DataModel>::empty());
            assert(text_views(out@) =~= Seq::<Seq<char>>::empty());
            while i < items.len()
                invariant
                    i <= items@.len(),
                    models == data_models(items@),
                    whole == data_model(wrapped),
                    whole == DataModel::Vec(models),
                    text_items(models.take(i as int)) == Ok::<Seq<Seq<char>>, &'static str>(text_views(out@)),
                decreases items@.len() - i,
            {
                assert(models.take(i + 1).drop_last() =~= models.take(i as int));
                assert(models.take(i + 1).last() == data_model(items@[i as int]));
                match &items[i] {
                    WrappedData::Text(s) => {
                        let ghost before = out@;
                        out.push(s.clone());
                        assert(text_views(out@) =~= text_views(before).push(s@));
                    },
                    _ => {
                        proof {
                            lemma_convert_items_error_stays(models, text_item_conversion(), i + 1);
                        }
                        return Err("Element in WrappedData::Vec is not a Text for Vec<String>");
                    },
                }
                i = i + 1;
            }
            assert(models.take(items@.len() as int) =~= models);
            Ok(out)
        },
        _ => Err("WrappedData is not a Vec for Vec<String>"),
    }
}

} // verus!
