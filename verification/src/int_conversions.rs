//! The conversions between the integer types and `WrappedInt`.
use vstd::prelude::*;
use vstd::std_specs::convert::{FromSpecImpl, TryFromSpecImpl};
use crate::data::{WrappedInt, wrapped_value};

verus! {

impl From<i8> for WrappedInt {
    fn from(val: i8) -> (r: WrappedInt) {
        WrappedInt::I8(val)
    }
}

impl FromSpecImpl<i8> for WrappedInt {
    open spec fn obeys_from_spec() -> bool {
        true
    }

    open spec fn from_spec(val: i8) -> WrappedInt {
        WrappedInt::I8(val)
    }
}

impl From<u8> for WrappedInt {
    fn from(val: u8) -> (r: WrappedInt) {
        WrappedInt::U8(val)
    }
}

impl FromSpecImpl<u8> for WrappedInt {
    open spec fn obeys_from_spec() -> bool {
        true
    }

    open spec fn from_spec(val: u8) -> WrappedInt {
        WrappedInt::U8(val)
    }
}

impl From<i16> for WrappedInt {
    fn from(val: i16) -> (r: WrappedInt) {
        WrappedInt::I16(val)
    }
}

impl FromSpecImpl<i16> for WrappedInt {
    open spec fn obeys_from_spec() -> bool {
        true
    }

    open spec fn from_spec(val: i16) -> WrappedInt {
        WrappedInt::I16(val)
    }
}

impl From<u16> for WrappedInt {
    fn from(val: u16) -> (r: WrappedInt) {
        WrappedInt::U16(val)
    }
}

impl FromSpecImpl<u16> for WrappedInt {
    open spec fn obeys_from_spec() -> bool {
        true
    }

    open spec fn from_spec(val: u16) -> WrappedInt {
        WrappedInt::U16(val)
    }
}

impl From<i32> for WrappedInt {
    fn from(val: i32) -> (r: WrappedInt) {
        WrappedInt::I32(val)
    }
}

impl FromSpecImpl<i32> for WrappedInt {
    open spec fn obeys_from_spec() -> bool {
        true
    }

    open spec fn from_spec(val: i32) -> WrappedInt {
        WrappedInt::I32(val)
    }
}

impl From<u32> for WrappedInt {
    fn from(val: u32) -> (r: WrappedInt) {
        WrappedInt::U32(val)
    }
}

impl FromSpecImpl<u32> for WrappedInt {
    open spec fn obeys_from_spec() -> bool {
        true
    }

    open spec fn from_spec(val: u32) -> WrappedInt {
        WrappedInt::U32(val)
    }
}

impl From<i64> for WrappedInt {
    fn from(val: i64) -> (r: WrappedInt) {
        WrappedInt::I64(val)
    }
}

impl FromSpecImpl<i64> for WrappedInt {
    open spec fn obeys_from_spec() -> bool {
        true
    }

    open spec fn from_spec(val: i64) -> WrappedInt {
        WrappedInt::I64(val)
    }
}

impl From<u64> for WrappedInt {
    fn from(val: u64) -> (r: WrappedInt) {
        WrappedInt::U64(val)
    }
}

impl FromSpecImpl<u64> for WrappedInt {
    open spec fn obeys_from_spec() -> bool {
        true
    }

    open spec fn from_spec(val: u64) -> WrappedInt {
        WrappedInt::U64(val)
    }
}

/// The message for a wrapped integer out of the range of `i8`.
pub open spec fn i8_range_error(w: WrappedInt) -> &'static str {
    match w {
        WrappedInt::U8(_) => "WrappedInt::U8 out of range for i8",
        WrappedInt::I16(_) => "WrappedInt::I16 out of range for i8",
        WrappedInt::U16(_) => "WrappedInt::U16 out of range for i8",
        WrappedInt::I32(_) => "WrappedInt::I32 out of range for i8",
        WrappedInt::U32(_) => "WrappedInt::U32 out of range for i8",
        WrappedInt::I64(_) => "WrappedInt::I64 out of range for i8",
        WrappedInt::U64(_) => "WrappedInt::U64 out of range for i8",
        _ => arbitrary(),
    }
}

/// Converting a wrapped integer to `i8`: its value where `i8` can hold it.
pub open spec fn i8_from_wrapped(w: WrappedInt) -> Result<i8, &'static str> {
    if i8::MIN <= wrapped_value(w) <= i8::MAX {
        Ok(wrapped_value(w) as i8)
    } else {
        Err(i8_range_error(w))
    }
}

impl TryFrom<WrappedInt> for i8 {
    type Error = &'static str;

    fn try_from(wrapped: WrappedInt) -> (r: Result<i8, &'static str>) {
        match wrapped {
            WrappedInt::I8(v) => Ok(v),
            WrappedInt::U8(v) => if (i8::MIN as i128) <= (v as i128) && (v as i128) <= (i8::MAX as i128) {
                Ok(v as i8)
            } else {
                Err("WrappedInt::U8 out of range for i8")
            },
            WrappedInt::I16(v) => if (i8::MIN as i128) <= (v as i128) && (v as i128) <= (i8::MAX as i128) {
                Ok(v as i8)
            } else {
                Err("WrappedInt::I16 out of range for i8")
            },
            WrappedInt::U16(v) => if (i8::MIN as i128) <= (v as i128) && (v as i128) <= (i8::MAX as i128) {
                Ok(v as i8)
            } else {
                Err("WrappedInt::U16 out of range for i8")
            },
            WrappedInt::I32(v) => if (i8::MIN as i128) <= (v as i128) && (v as i128) <= (i8::MAX as i128) {
                Ok(v as i8)
            } else {
                Err("WrappedInt::I32 out of range for i8")
            },
            WrappedInt::U32(v) => if (i8::MIN as i128) <= (v as i128) && (v as i128) <= (i8::MAX as i128) {
                Ok(v as i8)
            } else {
                Err("WrappedInt::U32 out of range for i8")
            },
            WrappedInt::I64(v) => if (i8::MIN as i128) <= (v as i128) && (v as i128) <= (i8::MAX as i128) {
                Ok(v as i8)
            } else {
                Err("WrappedInt::I64 out of range for i8")
            },
            WrappedInt::U64(v) => if (i8::MIN as i128) <= (v as i128) && (v as i128) <= (i8::MAX as i128) {
                Ok(v as i8)
            } else {
                Err("WrappedInt::U64 out of range for i8")
            },
        }
    }
}

impl TryFromSpecImpl<WrappedInt> for i8 {
    open spec fn obeys_try_from_spec() -> bool {
        true
    }

    open spec fn try_from_spec(wrapped: WrappedInt) -> Result<i8, &'static str> {
        i8_from_wrapped(wrapped)
    }
}

/// The message for a wrapped integer out of the range of `u8`.
pub open spec fn u8_range_error(w: WrappedInt) -> &'static str {
    match w {
        WrappedInt::I8(_) => "WrappedInt::I8 out of range for u8",
        WrappedInt::I16(_) => "WrappedInt::I16 out of range for u8",
        WrappedInt::U16(_) => "WrappedInt::U16 out of range for u8",
        WrappedInt::I32(_) => "WrappedInt::I32 out of range for u8",
        WrappedInt::U32(_) => "WrappedInt::U32 out of range for u8",
        WrappedInt::I64(_) => "WrappedInt::I64 out of range for u8",
        WrappedInt::U64(_) => "WrappedInt::U64 out of range for u8",
        _ => arbitrary(),
    }
}

/// Converting a wrapped integer to `u8`: its value where `u8` can hold it.
pub open spec fn u8_from_wrapped(w: WrappedInt) -> Result<u8, &'static str> {
    if u8::MIN <= wrapped_value(w) <= u8::MAX {
        Ok(wrapped_value(w) as u8)
    } else {
        Err(u8_range_error(w))
    }
}

impl TryFrom<WrappedInt> for u8 {
    type Error = &'static str;

    fn try_from(wrapped: WrappedInt) -> (r: Result<u8, &'static str>) {
        match wrapped {
            WrappedInt::U8(v) => Ok(v),
            WrappedInt::I8(v) => if (u8::MIN as i128) <= (v as i128) && (v as i128) <= (u8::MAX as i128) {
                Ok(v as u8)
            } else {
                Err("WrappedInt::I8 out of range for u8")
            },
            WrappedInt::I16(v) => if (u8::MIN as i128) <= (v as i128) && (v as i128) <= (u8::MAX as i128) {
                Ok(v as u8)
            } else {
                Err("WrappedInt::I16 out of range for u8")
            },
            WrappedInt::U16(v) => if (u8::MIN as i128) <= (v as i128) && (v as i128) <= (u8::MAX as i128) {
                Ok(v as u8)
            } else {
                Err("WrappedInt::U16 out of range for u8")
            },
            WrappedInt::I32(v) => if (u8::MIN as i128) <= (v as i128) && (v as i128) <= (u8::MAX as i128) {
                Ok(v as u8)
            } else {
                Err("WrappedInt::I32 out of range for u8")
            },
            WrappedInt::U32(v) => if (u8::MIN as i128) <= (v as i128) && (v as i128) <= (u8::MAX as i128) {
                Ok(v as u8)
            } else {
                Err("WrappedInt::U32 out of range for u8")
            },
            WrappedInt::I64(v) => if (u8::MIN as i128) <= (v as i128) && (v as i128) <= (u8::MAX as i128) {
                Ok(v as u8)
            } else {
                Err("WrappedInt::I64 out of range for u8")
            },
            WrappedInt::U64(v) => if (u8::MIN as i128) <= (v as i128) && (v as i128) <= (u8::MAX as i128) {
                Ok(v as u8)
            } else {
                Err("WrappedInt::U64 out of range for u8")
            },
        }
    }
}

impl TryFromSpecImpl<WrappedInt> for u8 {
    open spec fn obeys_try_from_spec() -> bool {
        true
    }

    open spec fn try_from_spec(wrapped: WrappedInt) -> Result<u8, &'static str> {
        u8_from_wrapped(wrapped)
    }
}

/// The message for a wrapped integer out of the range of `i16`.
pub open spec fn i16_range_error(w: WrappedInt) -> &'static str {
    match w {
        WrappedInt::U16(_) => "WrappedInt::U16 out of range for i16",
        WrappedInt::I32(_) => "WrappedInt::I32 out of range for i16",
        WrappedInt::U32(_) => "WrappedInt::U32 out of range for i16",
        WrappedInt::I64(_) => "WrappedInt::I64 out of range for i16",
        WrappedInt::U64(_) => "WrappedInt::U64 out of range for i16",
        _ => arbitrary(),
    }
}

/// Converting a wrapped integer to `i16`: its value where `i16` can hold it.
pub open spec fn i16_from_wrapped(w: WrappedInt) -> Result<i16, &'static str> {
    if i16::MIN <= wrapped_value(w) <= i16::MAX {
        Ok(wrapped_value(w) as i16)
    } else {
        Err(i16_range_error(w))
    }
}

impl TryFrom<WrappedInt> for i16 {
    type Error = &'static str;

    fn try_from(wrapped: WrappedInt) -> (r: Result<i16, &'static str>) {
        match wrapped {
            WrappedInt::I16(v) => Ok(v),
            WrappedInt::I8(v) => Ok(v as i16),
            WrappedInt::U8(v) => Ok(v as i16),
            WrappedInt::U16(v) => if (i16::MIN as i128) <= (v as i128) && (v as i128) <= (i16::MAX as i128) {
                Ok(v as i16)
            } else {
                Err("WrappedInt::U16 out of range for i16")
            },
            WrappedInt::I32(v) => if (i16::MIN as i128) <= (v as i128) && (v as i128) <= (i16::MAX as i128) {
                Ok(v as i16)
            } else {
                Err("WrappedInt::I32 out of range for i16")
            },
            WrappedInt::U32(v) => if (i16::MIN as i128) <= (v as i128) && (v as i128) <= (i16::MAX as i128) {
                Ok(v as i16)
            } else {
                Err("WrappedInt::U32 out of range for i16")
            },
            WrappedInt::I64(v) => if (i16::MIN as i128) <= (v as i128) && (v as i128) <= (i16::MAX as i128) {
                Ok(v as i16)
            } else {
                Err("WrappedInt::I64 out of range for i16")
            },
            WrappedInt::U64(v) => if (i16::MIN as i128) <= (v as i128) && (v as i128) <= (i16::MAX as i128) {
                Ok(v as i16)
            } else {
                Err("WrappedInt::U64 out of range for i16")
            },
        }
    }
}

impl TryFromSpecImpl<WrappedInt> for i16 {
    open spec fn obeys_try_from_spec() -> bool {
        true
    }

    open spec fn try_from_spec(wrapped: WrappedInt) -> Result<i16, &'static str> {
        i16_from_wrapped(wrapped)
    }
}

/// The message for a wrapped integer out of the range of `u16`.
pub open spec fn u16_range_error(w: WrappedInt) -> &'static str {
    match w {
        WrappedInt::I8(_) => "WrappedInt::I8 out of range for u16",
        WrappedInt::I16(_) => "WrappedInt::I16 out of range for u16",
        WrappedInt::I32(_) => "WrappedInt::I32 out of range for u16",
        WrappedInt::U32(_) => "WrappedInt::U32 out of range for u16",
        WrappedInt::I64(_) => "WrappedInt::I64 out of range for u16",
        WrappedInt::U64(_) => "WrappedInt::U64 out of range for u16",
        _ => arbitrary(),
    }
}

/// Converting a wrapped integer to `u16`: its value where `u16` can hold it.
pub open spec fn u16_from_wrapped(w: WrappedInt) -> Result<u16, &'static str> {
    if u16::MIN <= wrapped_value(w) <= u16::MAX {
        Ok(wrapped_value(w) as u16)
    } else {
        Err(u16_range_error(w))
    }
}

impl TryFrom<WrappedInt> for u16 {
    type Error = &'static str;

    fn try_from(wrapped: WrappedInt) -> (r: Result<u16, &'static str>) {
        match wrapped {
            WrappedInt::U16(v) => Ok(v),
            WrappedInt::U8(v) => Ok(v as u16),
            WrappedInt::I8(v) => if (u16::MIN as i128) <= (v as i128) && (v as i128) <= (u16::MAX as i128) {
                Ok(v as u16)
            } else {
                Err("WrappedInt::I8 out of range for u16")
            },
            WrappedInt::I16(v) => if (u16::MIN as i128) <= (v as i128) && (v as i128) <= (u16::MAX as i128) {
                Ok(v as u16)
            } else {
                Err("WrappedInt::I16 out of range for u16")
            },
            WrappedInt::I32(v) => if (u16::MIN as i128) <= (v as i128) && (v as i128) <= (u16::MAX as i128) {
                Ok(v as u16)
            } else {
                Err("WrappedInt::I32 out of range for u16")
            },
            WrappedInt::U32(v) => if (u16::MIN as i128) <= (v as i128) && (v as i128) <= (u16::MAX as i128) {
                Ok(v as u16)
            } else {
                Err("WrappedInt::U32 out of range for u16")
            },
            WrappedInt::I64(v) => if (u16::MIN as i128) <= (v as i128) && (v as i128) <= (u16::MAX as i128) {
                Ok(v as u16)
            } else {
                Err("WrappedInt::I64 out of range for u16")
            },
            WrappedInt::U64(v) => if (u16::MIN as i128) <= (v as i128) && (v as i128) <= (u16::MAX as i128) {
                Ok(v as u16)
            } else {
                Err("WrappedInt::U64 out of range for u16")
            },
        }
    }
}

impl TryFromSpecImpl<WrappedInt> for u16 {
    open spec fn obeys_try_from_spec() -> bool {
        true
    }

    open spec fn try_from_spec(wrapped: WrappedInt) -> Result<u16, &'static str> {
        u16_from_wrapped(wrapped)
    }
}

/// The message for a wrapped integer out of the range of `i32`.
pub open spec fn i32_range_error(w: WrappedInt) -> &'static str {
    match w {
        WrappedInt::U32(_) => "WrappedInt::U32 out of range for i32",
        WrappedInt::I64(_) => "WrappedInt::I64 out of range for i32",
        WrappedInt::U64(_) => "WrappedInt::U64 out of range for i32",
        _ => arbitrary(),
    }
}

/// Converting a wrapped integer to `i32`: its value where `i32` can hold it.
pub open spec fn i32_from_wrapped(w: WrappedInt) -> Result<i32, &'static str> {
    if i32::MIN <= wrapped_value(w) <= i32::MAX {
        Ok(wrapped_value(w) as i32)
    } else {
        Err(i32_range_error(w))
    }
}

impl TryFrom<WrappedInt> for i32 {
    type Error = &'static str;

    fn try_from(wrapped: WrappedInt) -> (r: Result<i32, &'static str>) {
        match wrapped {
            WrappedInt::I32(v) => Ok(v),
            WrappedInt::I8(v) => Ok(v as i32),
            WrappedInt::U8(v) => Ok(v as i32),
            WrappedInt::I16(v) => Ok(v as i32),
            WrappedInt::U16(v) => Ok(v as i32),
            WrappedInt::U32(v) => if (i32::MIN as i128) <= (v as i128) && (v as i128) <= (i32::MAX as i128) {
                Ok(v as i32)
            } else {
                Err("WrappedInt::U32 out of range for i32")
            },
            WrappedInt::I64(v) => if (i32::MIN as i128) <= (v as i128) && (v as i128) <= (i32::MAX as i128) {
                Ok(v as i32)
            } else {
                Err("WrappedInt::I64 out of range for i32")
            },
            WrappedInt::U64(v) => if (i32::MIN as i128) <= (v as i128) && (v as i128) <= (i32::MAX as i128) {
                Ok(v as i32)
            } else {
                Err("WrappedInt::U64 out of range for i32")
            },
        }
    }
}

impl TryFromSpecImpl<WrappedInt> for i32 {
    open spec fn obeys_try_from_spec() -> bool {
        true
    }

    open spec fn try_from_spec(wrapped: WrappedInt) -> Result<i32, &'static str> {
        i32_from_wrapped(wrapped)
    }
}

/// The message for a wrapped integer out of the range of `u32`.
pub open spec fn u32_range_error(w: WrappedInt) -> &'static str {
    match w {
        WrappedInt::I8(_) => "WrappedInt::I8 out of range for u32",
        WrappedInt::I16(_) => "WrappedInt::I16 out of range for u32",
        WrappedInt::I32(_) => "WrappedInt::I32 out of range for u32",
        WrappedInt::I64(_) => "WrappedInt::I64 out of range for u32",
        WrappedInt::U64(_) => "WrappedInt::U64 out of range for u32",
        _ => arbitrary(),
    }
}

/// Converting a wrapped integer to `u32`: its value where `u32` can hold it.
pub open spec fn u32_from_wrapped(w: WrappedInt) -> Result<u32, &'static str> {
    if u32::MIN <= wrapped_value(w) <= u32::MAX {
        Ok(wrapped_value(w) as u32)
    } else {
        Err(u32_range_error(w))
    }
}

impl TryFrom<WrappedInt> for u32 {
    type Error = &'static str;

    fn try_from(wrapped: WrappedInt) -> (r: Result<u32, &'static str>) {
        match wrapped {
            WrappedInt::U32(v) => Ok(v),
            WrappedInt::U8(v) => Ok(v as u32),
            WrappedInt::U16(v) => Ok(v as u32),
            WrappedInt::I8(v) => if (u32::MIN as i128) <= (v as i128) && (v as i128) <= (u32::MAX as i128) {
                Ok(v as u32)
            } else {
                Err("WrappedInt::I8 out of range for u32")
            },
            WrappedInt::I16(v) => if (u32::MIN as i128) <= (v as i128) && (v as i128) <= (u32::MAX as i128) {
                Ok(v as u32)
            } else {
                Err("WrappedInt::I16 out of range for u32")
            },
            WrappedInt::I32(v) => if (u32::MIN as i128) <= (v as i128) && (v as i128) <= (u32::MAX as i128) {
                Ok(v as u32)
            } else {
                Err("WrappedInt::I32 out of range for u32")
            },
            WrappedInt::I64(v) => if (u32::MIN as i128) <= (v as i128) && (v as i128) <= (u32::MAX as i128) {
                Ok(v as u32)
            } else {
                Err("WrappedInt::I64 out of range for u32")
            },
            WrappedInt::U64(v) => if (u32::MIN as i128) <= (v as i128) && (v as i128) <= (u32::MAX as i128) {
                Ok(v as u32)
            } else {
                Err("WrappedInt::U64 out of range for u32")
            },
        }
    }
}

impl TryFromSpecImpl<WrappedInt> for u32 {
    open spec fn obeys_try_from_spec() -> bool {
        true
    }

    open spec fn try_from_spec(wrapped: WrappedInt) -> Result<u32, &'static str> {
        u32_from_wrapped(wrapped)
    }
}

/// The message for a wrapped integer out of the range of `i64`.
pub open spec fn i64_range_error(w: WrappedInt) -> &'static str {
    match w {
        WrappedInt::U64(_) => "WrappedInt::U64 out of range for i64",
        _ => arbitrary(),
    }
}

/// Converting a wrapped integer to `i64`: its value where `i64` can hold it.
pub open spec fn i64_from_wrapped(w: WrappedInt) -> Result<i64, &'static str> {
    if i64::MIN <= wrapped_value(w) <= i64::MAX {
        Ok(wrapped_value(w) as i64)
    } else {
        Err(i64_range_error(w))
    }
}

impl TryFrom<WrappedInt> for i64 {
    type Error = &'static str;

    fn try_from(wrapped: WrappedInt) -> (r: Result<i64, &'static str>) {
        match wrapped {
            WrappedInt::I64(v) => Ok(v),
            WrappedInt::I8(v) => Ok(v as i64),
            WrappedInt::U8(v) => Ok(v as i64),
            WrappedInt::I16(v) => Ok(v as i64),
            WrappedInt::U16(v) => Ok(v as i64),
            WrappedInt::I32(v) => Ok(v as i64),
            WrappedInt::U32(v) => Ok(v as i64),
            WrappedInt::U64(v) => if (i64::MIN as i128) <= (v as i128) && (v as i128) <= (i64::MAX as i128) {
                Ok(v as i64)
            } else {
                Err("WrappedInt::U64 out of range for i64")
            },
        }
    }
}

impl TryFromSpecImpl<WrappedInt> for i64 {
    open spec fn obeys_try_from_spec() -> bool {
        true
    }

    open spec fn try_from_spec(wrapped: WrappedInt) -> Result<i64, &'static str> {
        i64_from_wrapped(wrapped)
    }
}

/// The message for a wrapped integer out of the range of `u64`.
pub open spec fn u64_range_error(w: WrappedInt) -> &'static str {
    match w {
        WrappedInt::I8(_) => "WrappedInt::I8 out of range for u64",
        WrappedInt::I16(_) => "WrappedInt::I16 out of range for u64",
        WrappedInt::I32(_) => "WrappedInt::I32 out of range for u64",
        WrappedInt::I64(_) => "WrappedInt::I64 out of range for u64",
        _ => arbitrary(),
    }
}

/// Converting a wrapped integer to `u64`: its value where `u64` can hold it.
pub open spec fn u64_from_wrapped(w: WrappedInt) -> Result<u64, &'static str> {
    if u64::MIN <= wrapped_value(w) <= u64::MAX {
        Ok(wrapped_value(w) as u64)
    } else {
        Err(u64_range_error(w))
    }
}

impl TryFrom<WrappedInt> for u64 {
    type Error = &'static str;

    fn try_from(wrapped: WrappedInt) -> (r: Result<u64, &'static str>) {
        match wrapped {
            WrappedInt::U64(v) => Ok(v),
            WrappedInt::U8(v) => Ok(v as u64),
            WrappedInt::U16(v) => Ok(v as u64),
            WrappedInt::U32(v) => Ok(v as u64),
            WrappedInt::I8(v) => if (u64::MIN as i128) <= (v as i128) && (v as i128) <= (u64::MAX as i128) {
                Ok(v as u64)
            } else {
                Err("WrappedInt::I8 out of range for u64")
            },
            WrappedInt::I16(v) => if (u64::MIN as i128) <= (v as i128) && (v as i128) <= (u64::MAX as i128) {
                Ok(v as u64)
            } else {
                Err("WrappedInt::I16 out of range for u64")
            },
            WrappedInt::I32(v) => if (u64::MIN as i128) <= (v as i128) && (v as i128) <= (u64::MAX as i128) {
                Ok(v as u64)
            } else {
                Err("WrappedInt::I32 out of range for u64")
            },
            WrappedInt::I64(v) => if (u64::MIN as i128) <= (v as i128) && (v as i128) <= (u64::MAX as i128) {
                Ok(v as u64)
            } else {
                Err("WrappedInt::I64 out of range for u64")
            },
        }
    }
}

impl TryFromSpecImpl<WrappedInt> for u64 {
    open spec fn obeys_try_from_spec() -> bool {
        true
    }

    open spec fn try_from_spec(wrapped: WrappedInt) -> Result<u64, &'static str> {
        u64_from_wrapped(wrapped)
    }
}

/// Wrapping an integer and converting it back to its own type gives it back.
pub proof fn lemma_wrapped_int_roundtrip(a: i8, b: u8, c: i16, d: u16, e: i32, f: u32, g: i64, h: u64)
    ensures
        i8_from_wrapped(WrappedInt::I8(a)) == Ok::<i8, &'static str>(a),
        u8_from_wrapped(WrappedInt::U8(b)) == Ok::<u8, &'static str>(b),
        i16_from_wrapped(WrappedInt::I16(c)) == Ok::<i16, &'static str>(c),
        u16_from_wrapped(WrappedInt::U16(d)) == Ok::<u16, &'static str>(d),
        i32_from_wrapped(WrappedInt::I32(e)) == Ok::<i32, &'static str>(e),
        u32_from_wrapped(WrappedInt::U32(f)) == Ok::<u32, &'static str>(f),
        i64_from_wrapped(WrappedInt::I64(g)) == Ok::<i64, &'static str>(g),
        u64_from_wrapped(WrappedInt::U64(h)) == Ok::<u64, &'static str>(h),
{
}

/// Converting a wrapped integer to an integer type succeeds exactly when
/// the type's range holds the wrapped value, whatever type it was wrapped
/// as, and then gives that value.
pub proof fn lemma_wrapped_int_conversions(w: WrappedInt)
    ensures
        i8_from_wrapped(w) is Ok <==> i8::MIN <= wrapped_value(w) <= i8::MAX,
        i8_from_wrapped(w) is Ok ==> i8_from_wrapped(w)->Ok_0 as int == wrapped_value(w),
        u8_from_wrapped(w) is Ok <==> u8::MIN <= wrapped_value(w) <= u8::MAX,
        u8_from_wrapped(w) is Ok ==> u8_from_wrapped(w)->Ok_0 as int == wrapped_value(w),
        i16_from_wrapped(w) is Ok <==> i16::MIN <= wrapped_value(w) <= i16::MAX,
        i16_from_wrapped(w) is Ok ==> i16_from_wrapped(w)->Ok_0 as int == wrapped_value(w),
        u16_from_wrapped(w) is Ok <==> u16::MIN <= wrapped_value(w) <= u16::MAX,
        u16_from_wrapped(w) is Ok ==> u16_from_wrapped(w)->Ok_0 as int == wrapped_value(w),
        i32_from_wrapped(w) is Ok <==> i32::MIN <= wrapped_value(w) <= i32::MAX,
        i32_from_wrapped(w) is Ok ==> i32_from_wrapped(w)->Ok_0 as int == wrapped_value(w),
        u32_from_wrapped(w) is Ok <==> u32::MIN <= wrapped_value(w) <= u32::MAX,
        u32_from_wrapped(w) is Ok ==> u32_from_wrapped(w)->Ok_0 as int == wrapped_value(w),
        i64_from_wrapped(w) is Ok <==> i64::MIN <= wrapped_value(w) <= i64::MAX,
        i64_from_wrapped(w) is Ok ==> i64_from_wrapped(w)->Ok_0 as int == wrapped_value(w),
        u64_from_wrapped(w) is Ok <==> u64::MIN <= wrapped_value(w) <= u64::MAX,
        u64_from_wrapped(w) is Ok ==> u64_from_wrapped(w)->Ok_0 as int == wrapped_value(w),
{
}

} // verus!
