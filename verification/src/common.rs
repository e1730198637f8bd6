//! Common types for reader and writer: the FBX format tag and the node
//! property model in its owned and borrowed shapes.
//!
//! Single- and double-precision values are carried as their IEEE 754 bit
//! patterns (`u32` / `u64`); the binary format stores exactly those words
//! little-endian, and `floatbits` converts between the two widths.

use vstd::prelude::*;

use crate::b64::{b64_decode, b64_decode_of};
use crate::floatbits::{narrow_f64_bits, narrow_f64_bits_spec, widen_f32_bits, widen_f32_bits_spec};

verus! {

/// Format of FBX data.
#[derive(Debug, Clone, Copy, PartialEq, Eq, Structural)]
pub enum FbxFormatType {
    /// Binary FBX, with version (for example, `7400` for FBX 7.4).
    Binary(u32),
    /// ASCII FBX.
    Ascii,
}

/// The mathematical value of a node property, shared as the view of both
/// the owned and the borrowed property shape.
pub enum PropData {
    /// Boolean.
    Bool(bool),
    /// 2 byte signed integer.
    I16(i16),
    /// 4 byte signed integer.
    I32(i32),
    /// 8 byte signed integer.
    I64(i64),
    /// Bit pattern of a 4 byte IEEE 754 number.
    F32(u32),
    /// Bit pattern of an 8 byte IEEE 754 number.
    F64(u64),
    /// Array of boolean.
    VecBool(Seq<bool>),
    /// Array of 4 byte signed integer.
    VecI32(Seq<i32>),
    /// Array of 8 byte signed integer.
    VecI64(Seq<i64>),
    /// Array of bit patterns of 4 byte IEEE 754 numbers.
    VecF32(Seq<u32>),
    /// Array of bit patterns of 8 byte IEEE 754 numbers.
    VecF64(Seq<u64>),
    /// String (may contain any character, NUL included).
    String(Seq<char>),
    /// Raw binary data.
    Binary(Seq<u8>),
}

/// A property of an FBX node, holding its buffers.
///
/// The reader emits this shape, since it materializes values from the
/// input; `borrow` projects it to the borrowed shape the writer takes.
#[derive(Debug, Clone, PartialEq)]
pub enum OwnedProperty {
    /// Boolean.
    Bool(bool),
    /// 2 byte signed integer.
    I16(i16),
    /// 4 byte signed integer.
    I32(i32),
    /// 8 byte signed integer.
    I64(i64),
    /// Bit pattern of a 4 byte single-precision IEEE 754 number.
    F32(u32),
    /// Bit pattern of an 8 byte double-precision IEEE 754 number.
    F64(u64),
    /// Array of boolean.
    VecBool(Vec<bool>),
    /// Array of 4 byte signed integer.
    VecI32(Vec<i32>),
    /// Array of 8 byte signed integer.
    VecI64(Vec<i64>),
    /// Array of bit patterns of 4 byte single-precision IEEE 754 numbers.
    VecF32(Vec<u32>),
    /// Array of bit patterns of 8 byte double-precision IEEE 754 numbers.
    VecF64(Vec<u64>),
    /// String.
    ///
    /// Note that the string can contain special character like `\u{0}`.
    String(String),
    /// Raw binary data.
    Binary(Vec<u8>),
}

impl View for OwnedProperty {
    type V = PropData;

    open spec fn view(&self) -> PropData {
        match self {
            OwnedProperty::Bool(v) => PropData::Bool(*v),
            OwnedProperty::I16(v) => PropData::I16(*v),
            OwnedProperty::I32(v) => PropData::I32(*v),
            OwnedProperty::I64(v) => PropData::I64(*v),
            OwnedProperty::F32(v) => PropData::F32(*v),
            OwnedProperty::F64(v) => PropData::F64(*v),
            OwnedProperty::VecBool(v) => PropData::VecBool(v@),
            OwnedProperty::VecI32(v) => PropData::VecI32(v@),
            OwnedProperty::VecI64(v) => PropData::VecI64(v@),
            OwnedProperty::VecF32(v) => PropData::VecF32(v@),
            OwnedProperty::VecF64(v) => PropData::VecF64(v@),
            OwnedProperty::String(v) => PropData::String(v@),
            OwnedProperty::Binary(v) => PropData::Binary(v@),
        }
    }
}

/// A property of an FBX node, borrowing its buffers from the caller.
///
/// The writer takes this shape, so that emission copies nothing.
#[derive(Debug, Clone, Copy, PartialEq)]
pub enum Property<'a> {
    /// Boolean.
    Bool(bool),
    /// 2 byte signed integer.
    I16(i16),
    /// 4 byte signed integer.
    I32(i32),
    /// 8 byte signed integer.
    I64(i64),
    /// Bit pattern of a 4 byte single-precision IEEE 754 number.
    F32(u32),
    /// Bit pattern of an 8 byte double-precision IEEE 754 number.
    F64(u64),
    /// Array of boolean.
    VecBool(&'a [bool]),
    /// Array of 4 byte signed integer.
    VecI32(&'a [i32]),
    /// Array of 8 byte signed integer.
    VecI64(&'a [i64]),
    /// Array of bit patterns of 4 byte single-precision IEEE 754 numbers.
    VecF32(&'a [u32]),
    /// Array of bit patterns of 8 byte double-precision IEEE 754 numbers.
    VecF64(&'a [u64]),
    /// String.
    ///
    /// Note that the string can contain special character like `\u{0}`.
    String(&'a str),
    /// Raw binary data.
    Binary(&'a [u8]),
}

impl<'a> View for Property<'a> {
    type V = PropData;

    open spec fn view(&self) -> PropData {
        match self {
            Property::Bool(v) => PropData::Bool(*v),
            Property::I16(v) => PropData::I16(*v),
            Property::I32(v) => PropData::I32(*v),
            Property::I64(v) => PropData::I64(*v),
            Property::F32(v) => PropData::F32(*v),
            Property::F64(v) => PropData::F64(*v),
            Property::VecBool(v) => PropData::VecBool(v@),
            Property::VecI32(v) => PropData::VecI32(v@),
            Property::VecI64(v) => PropData::VecI64(v@),
            Property::VecF32(v) => PropData::VecF32(v@),
            Property::VecF64(v) => PropData::VecF64(v@),
            Property::String(v) => PropData::String(v@),
            Property::Binary(v) => PropData::Binary(v@),
        }
    }
}

/// The views of a sequence of owned properties.
pub open spec fn props_view(s: Seq<OwnedProperty>) -> Seq<PropData> {
    s.map_values(|p: OwnedProperty| p@)
}

/// The views of a sequence of borrowed properties.
pub open spec fn bprops_view<'a>(s: Seq<Property<'a>>) -> Seq<PropData> {
    Seq::new(s.len(), |i: int| s[i]@)
}

/// Result of a conversion to `bool`: only a boolean property converts.
pub open spec fn spec_get_bool(p: PropData) -> Option<bool> {
    match p {
        PropData::Bool(v) => Some(v),
        _ => None,
    }
}

/// Result of a conversion to `i16`: booleans widen to 0 or 1.
pub open spec fn spec_get_i16(p: PropData) -> Option<i16> {
    match p {
        PropData::Bool(v) => Some(
            if v {
                1
            } else {
                0
            },
        ),
        PropData::I16(v) => Some(v),
        _ => None,
    }
}

/// Result of a conversion to `i32`: only value-preserving widenings.
pub open spec fn spec_get_i32(p: PropData) -> Option<i32> {
    match p {
        PropData::Bool(v) => Some(
            if v {
                1
            } else {
                0
            },
        ),
        PropData::I16(v) => Some(v as i32),
        PropData::I32(v) => Some(v),
        _ => None,
    }
}

/// Result of a conversion to `i64`: only value-preserving widenings.
pub open spec fn spec_get_i64(p: PropData) -> Option<i64> {
    match p {
        PropData::Bool(v) => Some(
            if v {
                1
            } else {
                0
            },
        ),
        PropData::I16(v) => Some(v as i64),
        PropData::I32(v) => Some(v as i64),
        PropData::I64(v) => Some(v),
        _ => None,
    }
}

/// Result of a conversion to a single-precision bit pattern: a double
/// narrows with IEEE 754 rounding to nearest, ties to even.
pub open spec fn spec_get_f32(p: PropData) -> Option<u32> {
    match p {
        PropData::F32(v) => Some(v),
        PropData::F64(v) => Some(narrow_f64_bits_spec(v)),
        _ => None,
    }
}

/// Result of a conversion to a double-precision bit pattern: a single
/// widens exactly.
pub open spec fn spec_get_f64(p: PropData) -> Option<u64> {
    match p {
        PropData::F32(v) => Some(widen_f32_bits_spec(v)),
        PropData::F64(v) => Some(v),
        _ => None,
    }
}

/// Result of a conversion to an array of booleans.
pub open spec fn spec_get_vec_bool(p: PropData) -> Option<Seq<bool>> {
    match p {
        PropData::VecBool(v) => Some(v),
        _ => None,
    }
}

/// 0/1 for false/true, elementwise.
pub open spec fn bools_to_i32s(v: Seq<bool>) -> Seq<i32> {
    v.map_values(
        |b: bool|
            if b {
                1i32
            } else {
                0i32
            },
    )
}

/// 0/1 for false/true, elementwise.
pub open spec fn bools_to_i64s(v: Seq<bool>) -> Seq<i64> {
    v.map_values(
        |b: bool|
            if b {
                1i64
            } else {
                0i64
            },
    )
}

/// Result of a conversion to an array of `i32`.
pub open spec fn spec_get_vec_i32(p: PropData) -> Option<Seq<i32>> {
    match p {
        PropData::VecBool(v) => Some(bools_to_i32s(v)),
        PropData::VecI32(v) => Some(v),
        _ => None,
    }
}

/// Result of a conversion to an array of `i64`.
pub open spec fn spec_get_vec_i64(p: PropData) -> Option<Seq<i64>> {
    match p {
        PropData::VecBool(v) => Some(bools_to_i64s(v)),
        PropData::VecI32(v) => Some(v.map_values(|x: i32| x as i64)),
        PropData::VecI64(v) => Some(v),
        _ => None,
    }
}

/// Result of a conversion to an array of single-precision bit patterns.
pub open spec fn spec_get_vec_f32(p: PropData) -> Option<Seq<u32>> {
    match p {
        PropData::VecF32(v) => Some(v),
        PropData::VecF64(v) => Some(v.map_values(|x: u64| narrow_f64_bits_spec(x))),
        _ => None,
    }
}

/// Result of a conversion to an array of double-precision bit patterns.
pub open spec fn spec_get_vec_f64(p: PropData) -> Option<Seq<u64>> {
    match p {
        PropData::VecF32(v) => Some(v.map_values(|x: u32| widen_f32_bits_spec(x))),
        PropData::VecF64(v) => Some(v),
        _ => None,
    }
}

/// Result of a conversion to a string: only a string property converts.
pub open spec fn spec_get_string(p: PropData) -> Option<Seq<char>> {
    match p {
        PropData::String(v) => Some(v),
        _ => None,
    }
}

/// Result of a conversion to raw bytes.  A string converts only when
/// requested, by base64 decoding, and only when that decoding succeeds.
pub open spec fn spec_get_binary(p: PropData, from_string: bool) -> Option<Seq<u8>> {
    match p {
        PropData::String(v) => if from_string {
            b64_decode_of(v)
        } else {
            None
        },
        PropData::Binary(v) => Some(v),
        _ => None,
    }
}

fn bools_as_i32s(v: &[bool]) -> (r: Vec<i32>)
    ensures
        r@ == bools_to_i32s(v@),
{
    let mut r: Vec<i32> = Vec::new();
    let n = v.len();
    let mut i: usize = 0;
    while i < n
        invariant
            i <= n == v@.len(),
            r@ == bools_to_i32s(v@.take(i as int)),
        decreases n - i,
    {
        r.push(
            if v[i] {
                1
            } else {
                0
            },
        );
        i = i + 1;
        proof {
            assert(v@.take(i as int).drop_last() =~= v@.take(i - 1));
            assert(bools_to_i32s(v@.take(i as int)) =~= r@);
        }
    }
    proof {
        assert(v@.take(n as int) =~= v@);
    }
    r
}

fn bools_as_i64s(v: &[bool]) -> (r: Vec<i64>)
    ensures
        r@ == bools_to_i64s(v@),
{
    let mut r: Vec<i64> = Vec::new();
    let n = v.len();
    let mut i: usize = 0;
    while i < n
        invariant
            i <= n == v@.len(),
            r@ == bools_to_i64s(v@.take(i as int)),
        decreases n - i,
    {
        r.push(
            if v[i] {
                1
            } else {
                0
            },
        );
        i = i + 1;
        proof {
            assert(v@.take(i as int).drop_last() =~= v@.take(i - 1));
            assert(bools_to_i64s(v@.take(i as int)) =~= r@);
        }
    }
    proof {
        assert(v@.take(n as int) =~= v@);
    }
    r
}

fn i32s_as_i64s(v: &[i32]) -> (r: Vec<i64>)
    ensures
        r@ == v@.map_values(|x: i32| x as i64),
{
    let mut r: Vec<i64> = Vec::new();
    let n = v.len();
    let mut i: usize = 0;
    while i < n
        invariant
            i <= n == v@.len(),
            r@ == v@.take(i as int).map_values(|x: i32| x as i64),
        decreases n - i,
    {
        r.push(v[i] as i64);
        i = i + 1;
        proof {
            assert(v@.take(i as int).drop_last() =~= v@.take(i - 1));
            assert(v@.take(i as int).map_values(|x: i32| x as i64) =~= r@);
        }
    }
    proof {
        assert(v@.take(n as int) =~= v@);
    }
    r
}

fn narrow_f64s(v: &[u64]) -> (r: Vec<u32>)
    ensures
        r@ == v@.map_values(|x: u64| narrow_f64_bits_spec(x)),
{
    let mut r: Vec<u32> = Vec::new();
    let n = v.len();
    let mut i: usize = 0;
    while i < n
        invariant
            i <= n == v@.len(),
            r@ == v@.take(i as int).map_values(|x: u64| narrow_f64_bits_spec(x)),
        decreases n - i,
    {
        r.push(narrow_f64_bits(v[i]));
        i = i + 1;
        proof {
            assert(v@.take(i as int).drop_last() =~= v@.take(i - 1));
            assert(v@.take(i as int).map_values(|x: u64| narrow_f64_bits_spec(x)) =~= r@);
        }
    }
    proof {
        assert(v@.take(n as int) =~= v@);
    }
    r
}

fn widen_f32s(v: &[u32]) -> (r: Vec<u64>)
    ensures
        r@ == v@.map_values(|x: u32| widen_f32_bits_spec(x)),
{
    let mut r: Vec<u64> = Vec::new();
    let n = v.len();
    let mut i: usize = 0;
    while i < n
        invariant
            i <= n == v@.len(),
            r@ == v@.take(i as int).map_values(|x: u32| widen_f32_bits_spec(x)),
        decreases n - i,
    {
        r.push(widen_f32_bits(v[i]));
        i = i + 1;
        proof {
            assert(v@.take(i as int).drop_last() =~= v@.take(i - 1));
            assert(v@.take(i as int).map_values(|x: u32| widen_f32_bits_spec(x)) =~= r@);
        }
    }
    proof {
        assert(v@.take(n as int) =~= v@);
    }
    r
}

impl OwnedProperty {
    /// Projects the owned shape to the borrowed shape without copying any
    /// buffer; the two denote the same value.
    pub fn borrow(&self) -> (r: Property<'_>)
        ensures
            r@ == self@,
    {
        match self {
            OwnedProperty::Bool(v) => Property::Bool(*v),
            OwnedProperty::I16(v) => Property::I16(*v),
            OwnedProperty::I32(v) => Property::I32(*v),
            OwnedProperty::I64(v) => Property::I64(*v),
            OwnedProperty::F32(v) => Property::F32(*v),
            OwnedProperty::F64(v) => Property::F64(*v),
            OwnedProperty::VecBool(v) => Property::VecBool(v.as_slice()),
            OwnedProperty::VecI32(v) => Property::VecI32(v.as_slice()),
            OwnedProperty::VecI64(v) => Property::VecI64(v.as_slice()),
            OwnedProperty::VecF32(v) => Property::VecF32(v.as_slice()),
            OwnedProperty::VecF64(v) => Property::VecF64(v.as_slice()),
            OwnedProperty::String(v) => Property::String(v.as_str()),
            OwnedProperty::Binary(v) => Property::Binary(v.as_slice()),
        }
    }

    /// Safe conversion.
    ///
    /// Tries to convert property value into specific type without data loss.
    pub fn get_bool(&self) -> (r: Option<bool>)
        ensures
            r == spec_get_bool(self@),
    {
        match self {
            OwnedProperty::Bool(v) => Some(*v),
            _ => None,
        }
    }

    /// Safe conversion.
    ///
    /// Tries to convert property value into specific type without data loss.
    pub fn into_bool(self) -> (r: Result<bool, Self>)
        ensures
            match r {
                Ok(v) => spec_get_bool(self@) == Some(v),
                Err(p) => spec_get_bool(self@) is None && p == self,
            },
    {
        match self {
            OwnedProperty::Bool(v) => Ok(v),
            v => Err(v),
        }
    }

    /// Safe conversion.
    ///
    /// Tries to convert property value into specific type without data loss.
    pub fn get_i16(&self) -> (r: Option<i16>)
        ensures
            r == spec_get_i16(self@),
    {
        match self {
            OwnedProperty::Bool(v) => Some(
                if *v {
                    1
                } else {
                    0
                },
            ),
            OwnedProperty::I16(v) => Some(*v),
            _ => None,
        }
    }

    /// Safe conversion.
    ///
    /// Tries to convert property value into specific type without data loss.
    pub fn into_i16(self) -> (r: Result<i16, Self>)
        ensures
            match r {
                Ok(v) => spec_get_i16(self@) == Some(v),
                Err(p) => spec_get_i16(self@) is None && p == self,
            },
    {
        match self {
            OwnedProperty::Bool(v) => Ok(
                if v {
                    1
                } else {
                    0
                },
            ),
            OwnedProperty::I16(v) => Ok(v),
            v => Err(v),
        }
    }

    /// Safe conversion.
    ///
    /// Tries to convert property value into specific type without data loss.
    pub fn get_i32(&self) -> (r: Option<i32>)
        ensures
            r == spec_get_i32(self@),
    {
        match self {
            OwnedProperty::Bool(v) => Some(
                if *v {
                    1
                } else {
                    0
                },
            ),
            OwnedProperty::I16(v) => Some(*v as i32),
            OwnedProperty::I32(v) => Some(*v),
            _ => None,
        }
    }

    /// Safe conversion.
    ///
    /// Tries to convert property value into specific type without data loss.
    pub fn into_i32(self) -> (r: Result<i32, Self>)
        ensures
            match r {
                Ok(v) => spec_get_i32(self@) == Some(v),
                Err(p) => spec_get_i32(self@) is None && p == self,
            },
    {
        match self {
            OwnedProperty::Bool(v) => Ok(
                if v {
                    1
                } else {
                    0
                },
            ),
            OwnedProperty::I16(v) => Ok(v as i32),
            OwnedProperty::I32(v) => Ok(v),
            v => Err(v),
        }
    }

    /// Safe conversion.
    ///
    /// Tries to convert property value into specific type without data loss.
    pub fn get_i64(&self) -> (r: Option<i64>)
        ensures
            r == spec_get_i64(self@),
    {
        match self {
            OwnedProperty::Bool(v) => Some(
                if *v {
                    1
                } else {
                    0
                },
            ),
            OwnedProperty::I16(v) => Some(*v as i64),
            OwnedProperty::I32(v) => Some(*v as i64),
            OwnedProperty::I64(v) => Some(*v),
            _ => None,
        }
    }

    /// Safe conversion.
    ///
    /// Tries to convert property value into specific type without data loss.
    pub fn into_i64(self) -> (r: Result<i64, Self>)
        ensures
            match r {
                Ok(v) => spec_get_i64(self@) == Some(v),
                Err(p) => spec_get_i64(self@) is None && p == self,
            },
    {
        match self {
            OwnedProperty::Bool(v) => Ok(
                if v {
                    1
                } else {
                    0
                },
            ),
            OwnedProperty::I16(v) => Ok(v as i64),
            OwnedProperty::I32(v) => Ok(v as i64),
            OwnedProperty::I64(v) => Ok(v),
            v => Err(v),
        }
    }

    /// Safe conversion to a single-precision bit pattern; a double
    /// narrows with IEEE 754 rounding.
    pub fn get_f32(&self) -> (r: Option<u32>)
        ensures
            r == spec_get_f32(self@),
    {
        match self {
            OwnedProperty::F32(v) => Some(*v),
            OwnedProperty::F64(v) => Some(narrow_f64_bits(*v)),
            _ => None,
        }
    }

    /// Safe conversion to a single-precision bit pattern; a double
    /// narrows with IEEE 754 rounding.
    pub fn into_f32(self) -> (r: Result<u32, Self>)
        ensures
            match r {
                Ok(v) => spec_get_f32(self@) == Some(v),
                Err(p) => spec_get_f32(self@) is None && p == self,
            },
    {
        match self {
            OwnedProperty::F32(v) => Ok(v),
            OwnedProperty::F64(v) => Ok(narrow_f64_bits(v)),
            v => Err(v),
        }
    }

    /// Safe conversion to a double-precision bit pattern; a single
    /// widens exactly.
    pub fn get_f64(&self) -> (r: Option<u64>)
        ensures
            r == spec_get_f64(self@),
    {
        match self {
            OwnedProperty::F32(v) => Some(widen_f32_bits(*v)),
            OwnedProperty::F64(v) => Some(*v),
            _ => None,
        }
    }

    /// Safe conversion to a double-precision bit pattern; a single
    /// widens exactly.
    pub fn into_f64(self) -> (r: Result<u64, Self>)
        ensures
            match r {
                Ok(v) => spec_get_f64(self@) == Some(v),
                Err(p) => spec_get_f64(self@) is None && p == self,
            },
    {
        match self {
            OwnedProperty::F32(v) => Ok(widen_f32_bits(v)),
            OwnedProperty::F64(v) => Ok(v),
            v => Err(v),
        }
    }

    /// Safe conversion.
    ///
    /// Tries to convert property value into specific type without data loss.
    pub fn get_vec_bool(&self) -> (r: Option<Vec<bool>>)
        ensures
            match r {
                Some(v) => spec_get_vec_bool(self@) == Some(v@),
                None => spec_get_vec_bool(self@) is None,
            },
    {
        match self {
            OwnedProperty::VecBool(v) => Some(v.clone()),
            _ => None,
        }
    }

    /// Safe conversion.
    ///
    /// Tries to convert property value into specific type without data loss.
    pub fn into_vec_bool(self) -> (r: Result<Vec<bool>, Self>)
        ensures
            match r {
                Ok(v) => spec_get_vec_bool(self@) == Some(v@),
                Err(p) => spec_get_vec_bool(self@) is None && p == self,
            },
    {
        match self {
            OwnedProperty::VecBool(v) => Ok(v),
            v => Err(v),
        }
    }

    /// Safe conversion.
    ///
    /// Tries to convert property value into specific type without data loss.
    pub fn get_vec_i32(&self) -> (r: Option<Vec<i32>>)
        ensures
            match r {
                Some(v) => spec_get_vec_i32(self@) == Some(v@),
                None => spec_get_vec_i32(self@) is None,
            },
    {
        match self {
            OwnedProperty::VecBool(v) => Some(bools_as_i32s(v.as_slice())),
            OwnedProperty::VecI32(v) => Some(v.clone()),
            _ => None,
        }
    }

    /// Safe conversion.
    ///
    /// Tries to convert property value into specific type without data loss.
    pub fn into_vec_i32(self) -> (r: Result<Vec<i32>, Self>)
        ensures
            match r {
                Ok(v) => spec_get_vec_i32(self@) == Some(v@),
                Err(p) => spec_get_vec_i32(self@) is None && p == self,
            },
    {
        match self {
            OwnedProperty::VecBool(v) => Ok(bools_as_i32s(v.as_slice())),
            OwnedProperty::VecI32(v) => Ok(v),
            v => Err(v),
        }
    }

    /// Safe conversion.
    ///
    /// Tries to convert property value into specific type without data loss.
    pub fn get_vec_i64(&self) -> (r: Option<Vec<i64>>)
        ensures
            match r {
                Some(v) => spec_get_vec_i64(self@) == Some(v@),
                None => spec_get_vec_i64(self@) is None,
            },
    {
        match self {
            OwnedProperty::VecBool(v) => Some(bools_as_i64s(v.as_slice())),
            OwnedProperty::VecI32(v) => Some(i32s_as_i64s(v.as_slice())),
            OwnedProperty::VecI64(v) => Some(v.clone()),
            _ => None,
        }
    }

    /// Safe conversion.
    ///
    /// Tries to convert property value into specific type without data loss.
    pub fn into_vec_i64(self) -> (r: Result<Vec<i64>, Self>)
        ensures
            match r {
                Ok(v) => spec_get_vec_i64(self@) == Some(v@),
                Err(p) => spec_get_vec_i64(self@) is None && p == self,
            },
    {
        match self {
            OwnedProperty::VecBool(v) => Ok(bools_as_i64s(v.as_slice())),
            OwnedProperty::VecI32(v) => Ok(i32s_as_i64s(v.as_slice())),
            OwnedProperty::VecI64(v) => Ok(v),
            v => Err(v),
        }
    }

    /// Safe conversion to single-precision bit patterns; doubles narrow
    /// elementwise with IEEE 754 rounding.
    pub fn get_vec_f32(&self) -> (r: Option<Vec<u32>>)
        ensures
            match r {
                Some(v) => spec_get_vec_f32(self@) == Some(v@),
                None => spec_get_vec_f32(self@) is None,
            },
    {
        match self {
            OwnedProperty::VecF32(v) => Some(v.clone()),
            OwnedProperty::VecF64(v) => Some(narrow_f64s(v.as_slice())),
            _ => None,
        }
    }

    /// Safe conversion to single-precision bit patterns; doubles narrow
    /// elementwise with IEEE 754 rounding.
    pub fn into_vec_f32(self) -> (r: Result<Vec<u32>, Self>)
        ensures
            match r {
                Ok(v) => spec_get_vec_f32(self@) == Some(v@),
                Err(p) => spec_get_vec_f32(self@) is None && p == self,
            },
    {
        match self {
            OwnedProperty::VecF32(v) => Ok(v),
            OwnedProperty::VecF64(v) => Ok(narrow_f64s(v.as_slice())),
            v => Err(v),
        }
    }

    /// Safe conversion to double-precision bit patterns; singles widen
    /// exactly, elementwise.
    pub fn get_vec_f64(&self) -> (r: Option<Vec<u64>>)
        ensures
            match r {
                Some(v) => spec_get_vec_f64(self@) == Some(v@),
                None => spec_get_vec_f64(self@) is None,
            },
    {
        match self {
            OwnedProperty::VecF32(v) => Some(widen_f32s(v.as_slice())),
            OwnedProperty::VecF64(v) => Some(v.clone()),
            _ => None,
        }
    }

    /// Safe conversion to double-precision bit patterns; singles widen
    /// exactly, elementwise.
    pub fn into_vec_f64(self) -> (r: Result<Vec<u64>, Self>)
        ensures
            match r {
                Ok(v) => spec_get_vec_f64(self@) == Some(v@),
                Err(p) => spec_get_vec_f64(self@) is None && p == self,
            },
    {
        match self {
            OwnedProperty::VecF32(v) => Ok(widen_f32s(v.as_slice())),
            OwnedProperty::VecF64(v) => Ok(v),
            v => Err(v),
        }
    }

    /// Get string value if possible.
    pub fn get_string(&self) -> (r: Option<&String>)
        ensures
            match r {
                Some(v) => spec_get_string(self@) == Some(v@),
                None => spec_get_string(self@) is None,
            },
    {
        match self {
            OwnedProperty::String(v) => Some(v),
            _ => None,
        }
    }

    /// Get string value if possible.
    pub fn into_string(self) -> (r: Result<String, Self>)
        ensures
            match r {
                Ok(v) => spec_get_string(self@) == Some(v@),
                Err(p) => spec_get_string(self@) is None && p == self,
            },
    {
        match self {
            OwnedProperty::String(v) => Ok(v),
            v => Err(v),
        }
    }

    /// Get binary value if possible.
    ///
    /// In ASCII FBX a binary value is represented as a base64-encoded
    /// string, so with `from_string` a string property is decoded.
    pub fn get_binary(&self, from_string: bool) -> (r: Option<Vec<u8>>)
        ensures
            match r {
                Some(v) => spec_get_binary(self@, from_string) == Some(v@),
                None => spec_get_binary(self@, from_string) is None,
            },
    {
        match self {
            OwnedProperty::String(v) => {
                if from_string {
                    b64_decode(v.as_str())
                } else {
                    None
                }
            },
            OwnedProperty::Binary(v) => Some(v.clone()),
            _ => None,
        }
    }

    /// Get binary value if possible.
    ///
    /// In ASCII FBX a binary value is represented as a base64-encoded
    /// string, so with `from_string` a string property is decoded.
    pub fn into_binary(self, from_string: bool) -> (r: Result<Vec<u8>, Self>)
        ensures
            match r {
                Ok(v) => spec_get_binary(self@, from_string) == Some(v@),
                Err(p) => spec_get_binary(self@, from_string) is None && p == self,
            },
    {
        match self {
            OwnedProperty::String(v) => {
                if from_string {
                    match b64_decode(v.as_str()) {
                        Some(b) => Ok(b),
                        None => Err(OwnedProperty::String(v)),
                    }
                } else {
                    Err(OwnedProperty::String(v))
                }
            },
            OwnedProperty::Binary(v) => Ok(v),
            v => Err(v),
        }
    }
}

impl<'a> Property<'a> {
    /// Safe conversion.
    ///
    /// Tries to convert property value into specific type without data loss.
    pub fn get_bool(&self) -> (r: Option<bool>)
        ensures
            r == spec_get_bool(self@),
    {
        match self {
            Property::Bool(v) => Some(*v),
            _ => None,
        }
    }

    /// Safe conversion.
    ///
    /// Tries to convert property value into specific type without data loss.
    pub fn get_i16(&self) -> (r: Option<i16>)
        ensures
            r == spec_get_i16(self@),
    {
        match self {
            Property::Bool(v) => Some(
                if *v {
                    1
                } else {
                    0
                },
            ),
            Property::I16(v) => Some(*v),
            _ => None,
        }
    }

    /// Safe conversion.
    ///
    /// Tries to convert property value into specific type without data loss.
    pub fn get_i32(&self) -> (r: Option<i32>)
        ensures
            r == spec_get_i32(self@),
    {
        match self {
            Property::Bool(v) => Some(
                if *v {
                    1
                } else {
                    0
                },
            ),
            Property::I16(v) => Some(*v as i32),
            Property::I32(v) => Some(*v),
            _ => None,
        }
    }

    /// Safe conversion.
    ///
    /// Tries to convert property value into specific type without data loss.
    pub fn get_i64(&self) -> (r: Option<i64>)
        ensures
            r == spec_get_i64(self@),
    {
        match self {
            Property::Bool(v) => Some(
                if *v {
                    1
                } else {
                    0
                },
            ),
            Property::I16(v) => Some(*v as i64),
            Property::I32(v) => Some(*v as i64),
            Property::I64(v) => Some(*v),
            _ => None,
        }
    }

    /// Safe conversion to a single-precision bit pattern; a double
    /// narrows with IEEE 754 rounding.
    pub fn get_f32(&self) -> (r: Option<u32>)
        ensures
            r == spec_get_f32(self@),
    {
        match self {
            Property::F32(v) => Some(*v),
            Property::F64(v) => Some(narrow_f64_bits(*v)),
            _ => None,
        }
    }

    /// Safe conversion to a double-precision bit pattern; a single
    /// widens exactly.
    pub fn get_f64(&self) -> (r: Option<u64>)
        ensures
            r == spec_get_f64(self@),
    {
        match self {
            Property::F32(v) => Some(widen_f32_bits(*v)),
            Property::F64(v) => Some(*v),
            _ => None,
        }
    }

    /// Safe conversion.
    ///
    /// Tries to convert property value into specific type without data loss.
    pub fn get_vec_bool(&self) -> (r: Option<&'a [bool]>)
        ensures
            match r {
                Some(v) => spec_get_vec_bool(self@) == Some(v@),
                None => spec_get_vec_bool(self@) is None,
            },
    {
        match self {
            Property::VecBool(v) => Some(*v),
            _ => None,
        }
    }

    /// Safe conversion.
    ///
    /// Tries to convert property value into specific type without data loss.
    pub fn get_vec_i32(&self) -> (r: Option<Vec<i32>>)
        ensures
            match r {
                Some(v) => spec_get_vec_i32(self@) == Some(v@),
                None => spec_get_vec_i32(self@) is None,
            },
    {
        match self {
            Property::VecBool(v) => Some(bools_as_i32s(v)),
            Property::VecI32(v) => Some(vstd::slice::slice_to_vec(v)),
            _ => None,
        }
    }

    /// Safe conversion.
    ///
    /// Tries to convert property value into specific type without data loss.
    pub fn get_vec_i64(&self) -> (r: Option<Vec<i64>>)
        ensures
            match r {
                Some(v) => spec_get_vec_i64(self@) == Some(v@),
                None => spec_get_vec_i64(self@) is None,
            },
    {
        match self {
            Property::VecBool(v) => Some(bools_as_i64s(v)),
            Property::VecI32(v) => Some(i32s_as_i64s(v)),
            Property::VecI64(v) => Some(vstd::slice::slice_to_vec(v)),
            _ => None,
        }
    }

    /// Safe conversion to single-precision bit patterns; doubles narrow
    /// elementwise with IEEE 754 rounding.
    pub fn get_vec_f32(&self) -> (r: Option<Vec<u32>>)
        ensures
            match r {
                Some(v) => spec_get_vec_f32(self@) == Some(v@),
                None => spec_get_vec_f32(self@) is None,
            },
    {
        match self {
            Property::VecF32(v) => Some(vstd::slice::slice_to_vec(v)),
            Property::VecF64(v) => Some(narrow_f64s(v)),
            _ => None,
        }
    }

    /// Safe conversion to double-precision bit patterns; singles widen
    /// exactly, elementwise.
    pub fn get_vec_f64(&self) -> (r: Option<Vec<u64>>)
        ensures
            match r {
                Some(v) => spec_get_vec_f64(self@) == Some(v@),
                None => spec_get_vec_f64(self@) is None,
            },
    {
        match self {
            Property::VecF32(v) => Some(widen_f32s(v)),
            Property::VecF64(v) => Some(vstd::slice::slice_to_vec(v)),
            _ => None,
        }
    }

    /// Get string value if possible.
    pub fn get_string(&self) -> (r: Option<&'a str>)
        ensures
            match r {
                Some(v) => spec_get_string(self@) == Some(v@),
                None => spec_get_string(self@) is None,
            },
    {
        match self {
            Property::String(v) => Some(*v),
            _ => None,
        }
    }

    /// Get binary value if possible.
    ///
    /// In ASCII FBX a binary value is represented as a base64-encoded
    /// string, so with `from_string` a string property is decoded.
    pub fn get_binary(&self, from_string: bool) -> (r: Option<Vec<u8>>)
        ensures
            match r {
                Some(v) => spec_get_binary(self@, from_string) == Some(v@),
                None => spec_get_binary(self@, from_string) is None,
            },
    {
        match self {
            Property::String(v) => {
                if from_string {
                    b64_decode(v)
                } else {
                    None
                }
            },
            Property::Binary(v) => Some(vstd::slice::slice_to_vec(v)),
            _ => None,
        }
    }
}

} // verus!
