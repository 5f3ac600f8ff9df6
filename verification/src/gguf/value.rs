//! GGUF metadata values and their decoding.
use super::error::Error;
use super::reader::{
    read_string, read_u16, read_u32, read_u64, read_u8, spec_read_string, spec_read_u16,
    spec_read_u32, spec_read_u64, spec_read_u8,
};
use super::types::{spec_value_type_from_u32, ValueType};
use vstd::prelude::*;

verus! {

/// A single GGUF metadata value.
///
/// Floating-point values are kept as their IEEE-754 bit patterns
/// (`Float32` holds the bits of an `f32`, `Float64` those of an `f64`), exactly
/// as they are stored in the file.
#[derive(Debug, PartialEq)]
pub enum Value {
    Uint8(u8),
    Int8(i8),
    Uint16(u16),
    Int16(i16),
    Uint32(u32),
    Int32(i32),
    Float32(u32),
    Bool(bool),
    String(String),
    Array(ValueType, Vec<Value>),
    Uint64(u64),
    Int64(i64),
    Float64(u64),
}

/// The mathematical content of a [`Value`]: strings as character sequences and
/// arrays as sequences of models.
pub enum ValueModel {
    Uint8(u8),
    Int8(i8),
    Uint16(u16),
    Int16(i16),
    Uint32(u32),
    Int32(i32),
    Float32(u32),
    Bool(bool),
    String(Seq<char>),
    Array(ValueType, Seq<ValueModel>),
    Uint64(u64),
    Int64(i64),
    Float64(u64),
}

/// The model of a value.
pub open spec fn value_model(v: Value) -> ValueModel
    decreases v, 0int,
{
    match v {
        Value::Uint8(x) => ValueModel::Uint8(x),
        Value::Int8(x) => ValueModel::Int8(x),
        Value::Uint16(x) => ValueModel::Uint16(x),
        Value::Int16(x) => ValueModel::Int16(x),
        Value::Uint32(x) => ValueModel::Uint32(x),
        Value::Int32(x) => ValueModel::Int32(x),
        Value::Float32(x) => ValueModel::Float32(x),
        Value::Bool(x) => ValueModel::Bool(x),
        Value::String(s) => ValueModel::String(s@),
        Value::Array(t, items) => ValueModel::Array(t, value_models(items@)),
        Value::Uint64(x) => ValueModel::Uint64(x),
        Value::Int64(x) => ValueModel::Int64(x),
        Value::Float64(x) => ValueModel::Float64(x),
    }
}

/// The models of a sequence of values, element by element.
pub open spec fn value_models(items: Seq<Value>) -> Seq<ValueModel>
    decreases items, 1int,
{
    Seq::new(
        items.len(),
        |i: int|
            if 0 <= i < items.len() {
                value_model(items[i])
            } else {
                ValueModel::Bool(false)
            },
    )
}

impl View for Value {
    type V = ValueModel;

    open spec fn view(&self) -> ValueModel {
        value_model(*self)
    }
}

/// The value type that a value model carries.
pub open spec fn model_value_type(v: ValueModel) -> ValueType {
    match v {
        ValueModel::Uint8(_) => ValueType::Uint8,
        ValueModel::Int8(_) => ValueType::Int8,
        ValueModel::Uint16(_) => ValueType::Uint16,
        ValueModel::Int16(_) => ValueType::Int16,
        ValueModel::Uint32(_) => ValueType::Uint32,
        ValueModel::Int32(_) => ValueType::Int32,
        ValueModel::Float32(_) => ValueType::Float32,
        ValueModel::Bool(_) => ValueType::Bool,
        ValueModel::String(_) => ValueType::String,
        ValueModel::Array(_, _) => ValueType::Array,
        ValueModel::Uint64(_) => ValueType::Uint64,
        ValueModel::Int64(_) => ValueType::Int64,
        ValueModel::Float64(_) => ValueType::Float64,
    }
}

/// Puts already-read array items in front of the result of reading the rest.
pub open spec fn prepend_items(
    prefix: Seq<ValueModel>,
    rest: Result<(Seq<ValueModel>, int), Error>,
) -> Result<(Seq<ValueModel>, int), Error> {
    match rest {
        Ok((vs, p)) => Ok((prefix + vs, p)),
        Err(e) => Err(e),
    }
}

/// Decoding of one metadata value of type `ty` stored at `pos`.
///
/// Scalars are stored little-endian; a `Bool` is one byte, true when non-zero;
/// an `Array` is its item type id (`u32`), its length (`u64`) and then the items.
pub open spec fn spec_read_value(b: Seq<u8>, pos: int, ty: ValueType) -> Result<(ValueModel, int), Error>
    decreases b.len() - pos, 0int, 0int,
{
    match ty {
        ValueType::Uint8 => match spec_read_u8(b, pos) {
            Ok((x, p)) => Ok((ValueModel::Uint8(x), p)),
            Err(e) => Err(e),
        },
        ValueType::Int8 => match spec_read_u8(b, pos) {
            Ok((x, p)) => Ok((ValueModel::Int8(x as i8), p)),
            Err(e) => Err(e),
        },
        ValueType::Uint16 => match spec_read_u16(b, pos) {
            Ok((x, p)) => Ok((ValueModel::Uint16(x), p)),
            Err(e) => Err(e),
        },
        ValueType::Int16 => match spec_read_u16(b, pos) {
            Ok((x, p)) => Ok((ValueModel::Int16(x as i16), p)),
            Err(e) => Err(e),
        },
        ValueType::Uint32 => match spec_read_u32(b, pos) {
            Ok((x, p)) => Ok((ValueModel::Uint32(x), p)),
            Err(e) => Err(e),
        },
        ValueType::Int32 => match spec_read_u32(b, pos) {
            Ok((x, p)) => Ok((ValueModel::Int32(x as i32), p)),
            Err(e) => Err(e),
        },
        ValueType::Float32 => match spec_read_u32(b, pos) {
            Ok((x, p)) => Ok((ValueModel::Float32(x), p)),
            Err(e) => Err(e),
        },
        ValueType::Bool => match spec_read_u8(b, pos) {
            Ok((x, p)) => Ok((ValueModel::Bool(x != 0), p)),
            Err(e) => Err(e),
        },
        ValueType::String => match spec_read_string(b, pos) {
            Ok((s, p)) => Ok((ValueModel::String(s), p)),
            Err(e) => Err(e),
        },
        ValueType::Array => match spec_read_u32(b, pos) {
            Err(e) => Err(e),
            Ok((t, p1)) => match spec_value_type_from_u32(t) {
                Err(e) => Err(e),
                Ok(item_type) => match spec_read_u64(b, p1) {
                    Err(e) => Err(e),
                    Ok((n, p2)) => match spec_read_items(b, p2, item_type, n as nat) {
                        Ok((items, p)) => Ok((ValueModel::Array(item_type, items), p)),
                        Err(e) => Err(e),
                    },
                },
            },
        },
        ValueType::Uint64 => match spec_read_u64(b, pos) {
            Ok((x, p)) => Ok((ValueModel::Uint64(x), p)),
            Err(e) => Err(e),
        },
        ValueType::Int64 => match spec_read_u64(b, pos) {
            Ok((x, p)) => Ok((ValueModel::Int64(x as i64), p)),
            Err(e) => Err(e),
        },
        ValueType::Float64 => match spec_read_u64(b, pos) {
            Ok((x, p)) => Ok((ValueModel::Float64(x), p)),
            Err(e) => Err(e),
        },
    }
}

/// Decoding of `n` consecutive values of type `ty` stored from `pos` on.
///
/// Every value occupies at least one byte, so the guard on the position of the
/// next item never fails on a decoded value (see [`Value::read`]); it only
/// makes the recursion evidently finite.
pub open spec fn spec_read_items(b: Seq<u8>, pos: int, ty: ValueType, n: nat) -> Result<
    (Seq<ValueModel>, int),
    Error,
>
    decreases b.len() - pos, 1int, n,
{
    if n == 0 {
        Ok((Seq::empty(), pos))
    } else {
        match spec_read_value(b, pos, ty) {
            Err(e) => Err(e),
            Ok((v, p)) => if pos < p <= b.len() {
                prepend_items(seq![v], spec_read_items(b, p, ty, (n - 1) as nat))
            } else {
                Err(Error::UnexpectedEof)
            },
        }
    }
}

/// The preview of an array of `n` items shows all of them when there are at
/// most nine; otherwise it shows the first eight and then the `...` marker.
pub open spec fn spec_preview(n: nat) -> (nat, bool) {
    if n > 9 {
        (8, true)
    } else {
        (n, false)
    }
}

impl Value {
    /// The preview layout of an array value: how many leading items are
    /// shown and whether the `...` marker follows them. `None` for a value
    /// that is not an array.
    pub fn array_preview(&self) -> (res: Option<(usize, bool)>)
        ensures
            match self@ {
                ValueModel::Array(_, items) => res matches Some((shown, more)) && (shown as nat, more)
                    == spec_preview(items.len()),
                _ => res is None,
            },
    {
        match self {
            Value::Array(_, items) => {
                let n = items.len();
                if n > 9 {
                    Some((8, true))
                } else {
                    Some((n, false))
                }
            },
            _ => None,
        }
    }

    /// The metadata value type of this value.
    pub fn value_type(&self) -> (res: ValueType)
        ensures
            res == model_value_type(self@),
    {
        match self {
            Value::Uint8(_) => ValueType::Uint8,
            Value::Int8(_) => ValueType::Int8,
            Value::Uint16(_) => ValueType::Uint16,
            Value::Int16(_) => ValueType::Int16,
            Value::Uint32(_) => ValueType::Uint32,
            Value::Int32(_) => ValueType::Int32,
            Value::Float32(_) => ValueType::Float32,
            Value::Bool(_) => ValueType::Bool,
            Value::String(_) => ValueType::String,
            Value::Array(_, _) => ValueType::Array,
            Value::Uint64(_) => ValueType::Uint64,
            Value::Int64(_) => ValueType::Int64,
            Value::Float64(_) => ValueType::Float64,
        }
    }

    /// Read a value of the given type from the little-endian bytes at `pos`.
    ///
    /// Returns the value and the position just past it.
    pub fn read(bytes: &[u8], pos: usize, ty: ValueType) -> (res: Result<(Value, usize), Error>)
        ensures
            match res {
                Ok((v, p)) => spec_read_value(bytes@, pos as int, ty) == Ok::<
                    (ValueModel, int),
                    Error,
                >((v@, p as int)) && pos < p <= bytes@.len(),
                Err(e) => spec_read_value(bytes@, pos as int, ty) == Err::<(ValueModel, int), Error>(
                    e,
                ),
            },
        decreases bytes@.len() - pos,
    {
        match ty {
            ValueType::Uint8 => {
                let (x, p) = read_u8(bytes, pos)?;
                Ok((Value::Uint8(x), p))
            },
            ValueType::Int8 => {
                let (x, p) = read_u8(bytes, pos)?;
                Ok((Value::Int8(x as i8), p))
            },
            ValueType::Uint16 => {
                let (x, p) = read_u16(bytes, pos)?;
                Ok((Value::Uint16(x), p))
            },
            ValueType::Int16 => {
                let (x, p) = read_u16(bytes, pos)?;
                Ok((Value::Int16(x as i16), p))
            },
            ValueType::Uint32 => {
                let (x, p) = read_u32(bytes, pos)?;
                Ok((Value::Uint32(x), p))
            },
            ValueType::Int32 => {
                let (x, p) = read_u32(bytes, pos)?;
                Ok((Value::Int32(x as i32), p))
            },
            ValueType::Float32 => {
                let (x, p) = read_u32(bytes, pos)?;
                Ok((Value::Float32(x), p))
            },
            ValueType::Bool => {
                let (x, p) = read_u8(bytes, pos)?;
                Ok((Value::Bool(x != 0), p))
            },
            ValueType::String => {
                let (s, p) = read_string(bytes, pos)?;
                Ok((Value::String(s), p))
            },
            ValueType::Array => {
                let (t, p1) = read_u32(bytes, pos)?;
                let item_type = ValueType::from_u32(t)?;
                let (n, p2) = read_u64(bytes, p1)?;
                let mut items: Vec<Value> = Vec::new();
                let mut cur = p2;
                let mut i: u64 = 0;
                while i < n
                    invariant
                        pos < p2 <= cur <= bytes@.len(),
                        i <= n,
                        ty == ValueType::Array,
                        spec_read_u32(bytes@, pos as int) == Ok::<(u32, int), Error>((t, p1 as int)),
                        spec_value_type_from_u32(t) == Ok::<ValueType, Error>(item_type),
                        spec_read_u64(bytes@, p1 as int) == Ok::<(u64, int), Error>((n, p2 as int)),
                        spec_read_items(bytes@, p2 as int, item_type, n as nat) == prepend_items(
                            value_models(items@),
                            spec_read_items(bytes@, cur as int, item_type, (n - i) as nat),
                        ),
                    decreases n - i,
                {
                    let ghost before = value_models(items@);
                    let (v, next) = match Value::read(bytes, cur, item_type) {
                        Ok(r) => r,
                        Err(e) => {
                            assert(spec_read_items(bytes@, cur as int, item_type, (n - i) as nat)
                                == Err::<(Seq<ValueModel>, int), Error>(e));
                            assert(spec_read_items(bytes@, p2 as int, item_type, n as nat)
                                == Err::<(Seq<ValueModel>, int), Error>(e));
                            assert(spec_read_value(bytes@, pos as int, ty)
                                == Err::<(ValueModel, int), Error>(e));
                            return Err(e);
                        },
                    };
                    items.push(v);
                    assert(value_models(items@) =~= before + seq![v@]);
                    assert(before + seq![v@] + Seq::<ValueModel>::empty() =~= before + seq![v@]);
                    proof {
                        let rest = spec_read_items(bytes@, next as int, item_type, (n - i - 1) as nat);
                        match rest {
                            Ok((vs, pe)) => {
                                assert(before + (seq![v@] + vs) =~= before + seq![v@] + vs);
                            },
                            Err(_) => {},
                        }
                    }
                    cur = next;
                    i = i + 1;
                }
                assert(value_models(items@) + Seq::<ValueModel>::empty() =~= value_models(items@));
                Ok((Value::Array(item_type, items), cur))
            },
            ValueType::Uint64 => {
                let (x, p) = read_u64(bytes, pos)?;
                Ok((Value::Uint64(x), p))
            },
            ValueType::Int64 => {
                let (x, p) = read_u64(bytes, pos)?;
                Ok((Value::Int64(x as i64), p))
            },
            ValueType::Float64 => {
                let (x, p) = read_u64(bytes, pos)?;
                Ok((Value::Float64(x), p))
            },
        }
    }
}

} // verus!
