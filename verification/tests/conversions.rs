use std::convert::TryFrom;
use toli::data::{
    bool_list_from, i16_list_from, i8_list_from, text_list_from, u32_list_from, u64_list_from,
    FloatSource, WrappedData, WrappedInt,
};
use toli::json::JsonNumber;

#[test]
fn from_wraps_each_integer_type() {
    assert_eq!(WrappedInt::from(-3i8), WrappedInt::I8(-3));
    assert_eq!(WrappedInt::from(3u8), WrappedInt::U8(3));
    assert_eq!(WrappedInt::from(-300i16), WrappedInt::I16(-300));
    assert_eq!(WrappedInt::from(300u16), WrappedInt::U16(300));
    assert_eq!(WrappedInt::from(-70000i32), WrappedInt::I32(-70000));
    assert_eq!(WrappedInt::from(70000u32), WrappedInt::U32(70000));
    assert_eq!(WrappedInt::from(i64::MIN), WrappedInt::I64(i64::MIN));
    assert_eq!(WrappedInt::from(u64::MAX), WrappedInt::U64(u64::MAX));
}

#[test]
fn wrapping_and_unwrapping_gives_the_value_back() {
    for x in [i8::MIN, -1, 0, 1, i8::MAX] {
        assert_eq!(i8::try_from(WrappedInt::from(x)), Ok(x));
    }
    for x in [0u32, 1, u32::MAX] {
        assert_eq!(u32::try_from(WrappedInt::from(x)), Ok(x));
    }
    for x in [i64::MIN, 0, i64::MAX] {
        assert_eq!(i64::try_from(WrappedInt::from(x)), Ok(x));
    }
}

#[test]
fn conversions_in_range_succeed() {
    assert_eq!(i8::try_from(WrappedInt::U64(127)), Ok(127i8));
    assert_eq!(u8::try_from(WrappedInt::I64(255)), Ok(255u8));
    assert_eq!(i16::try_from(WrappedInt::U8(255)), Ok(255i16));
    assert_eq!(u16::try_from(WrappedInt::I32(65535)), Ok(65535u16));
    assert_eq!(i32::try_from(WrappedInt::U16(65535)), Ok(65535i32));
    assert_eq!(u32::try_from(WrappedInt::I64(4294967295)), Ok(u32::MAX));
    assert_eq!(i64::try_from(WrappedInt::U32(u32::MAX)), Ok(u32::MAX as i64));
    assert_eq!(u64::try_from(WrappedInt::I8(0)), Ok(0u64));
}

#[test]
fn conversions_out_of_range_name_the_variant_and_target() {
    assert_eq!(i8::try_from(WrappedInt::U8(128)), Err("WrappedInt::U8 out of range for i8"));
    assert_eq!(i8::try_from(WrappedInt::I64(-129)), Err("WrappedInt::I64 out of range for i8"));
    assert_eq!(u8::try_from(WrappedInt::I8(-1)), Err("WrappedInt::I8 out of range for u8"));
    assert_eq!(u16::try_from(WrappedInt::U32(65536)), Err("WrappedInt::U32 out of range for u16"));
    assert_eq!(i32::try_from(WrappedInt::U32(2147483648)), Err("WrappedInt::U32 out of range for i32"));
    assert_eq!(u32::try_from(WrappedInt::I16(-5)), Err("WrappedInt::I16 out of range for u32"));
    assert_eq!(i64::try_from(WrappedInt::U64(u64::MAX)), Err("WrappedInt::U64 out of range for i64"));
    assert_eq!(u64::try_from(WrappedInt::I64(-1)), Err("WrappedInt::I64 out of range for u64"));
}

#[test]
fn text_and_boolean_conversions() {
    assert_eq!(String::try_from(WrappedData::Text("hi".to_string())), Ok("hi".to_string()));
    assert_eq!(String::try_from(WrappedData::Boolean(true)), Err("WrappedData is not a Text"));
    assert_eq!(bool::try_from(WrappedData::Boolean(false)), Ok(false));
    assert_eq!(bool::try_from(WrappedData::Absent), Err("WrappedData is not a Boolean"));
}

fn numbers(v: Vec<WrappedInt>) -> WrappedData {
    WrappedData::Vec(v.into_iter().map(WrappedData::Number).collect())
}

#[test]
fn integer_lists() {
    assert_eq!(i8_list_from(numbers(vec![WrappedInt::I8(1), WrappedInt::U64(2)])), Ok(vec![1i8, 2]));
    assert_eq!(i8_list_from(WrappedData::Vec(vec![])), Ok(vec![]));
    assert_eq!(
        i8_list_from(numbers(vec![WrappedInt::I8(1), WrappedInt::U8(200), WrappedInt::I64(-1000)])),
        Err("WrappedInt::U8 out of range for i8")
    );
    assert_eq!(
        i16_list_from(WrappedData::Vec(vec![WrappedData::Number(WrappedInt::I8(1)), WrappedData::Text("2".to_string())])),
        Err("Element in WrappedData::Vec is not a Number for Vec<i16>")
    );
    assert_eq!(u32_list_from(WrappedData::Boolean(true)), Err("WrappedData is not a Vec for Vec<u32>"));
    assert_eq!(u64_list_from(numbers(vec![WrappedInt::U64(u64::MAX)])), Ok(vec![u64::MAX]));
}

#[test]
fn text_and_boolean_lists() {
    let texts = WrappedData::Vec(vec![WrappedData::Text("a".to_string()), WrappedData::Text("b".to_string())]);
    assert_eq!(text_list_from(texts), Ok(vec!["a".to_string(), "b".to_string()]));
    let mixed = WrappedData::Vec(vec![
        WrappedData::Text("a".to_string()),
        WrappedData::Float(FloatSource::Number(JsonNumber::PosInt(1))),
    ]);
    assert_eq!(text_list_from(mixed), Err("Element in WrappedData::Vec is not a Text for Vec<String>"));
    assert_eq!(text_list_from(WrappedData::Absent), Err("WrappedData is not a Vec for Vec<String>"));
    let flags = WrappedData::Vec(vec![WrappedData::Boolean(true), WrappedData::Boolean(false)]);
    assert_eq!(bool_list_from(flags), Ok(vec![true, false]));
    assert_eq!(
        bool_list_from(WrappedData::Vec(vec![WrappedData::Absent])),
        Err("Element in WrappedData::Vec is not a Boolean for Vec<bool>")
    );
}

#[test]
fn cloned_data_keeps_its_values() {
    let original = WrappedData::Vec(vec![
        WrappedData::Number(WrappedInt::U16(7)),
        WrappedData::Text("x".to_string()),
        WrappedData::Vec(vec![WrappedData::Boolean(true), WrappedData::Absent]),
    ]);
    let copy = original.clone();
    assert_eq!(format!("{:?}", copy), format!("{:?}", original));
}
