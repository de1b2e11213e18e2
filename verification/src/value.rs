//! A msgpack value as Neovim's RPC delivers it, with the accessors the decoders use.

use vstd::prelude::*;

verus! {

/// A msgpack value. Integers keep their msgpack sign class; floats are kept as their IEEE bit
/// patterns; a string that is not valid UTF-8 is `String(None)`.
#[derive(Debug, PartialEq)]
pub enum Value {
    Nil,
    Boolean(bool),
    /// A non-negative integer.
    PosInt(u64),
    /// A negative integer.
    NegInt(i64),
    F32(u32),
    F64(u64),
    String(Option<String>),
    Binary(Vec<u8>),
    Array(Vec<Value>),
    Pairs(Vec<(Value, Value)>),
    Ext(i8, Vec<u8>),
}

/// The boolean a value holds.
pub open spec fn bool_of(v: Value) -> Option<bool> {
    match v {
        Value::Boolean(b) => Some(b),
        _ => None,
    }
}

/// The value as a `u64`, where it is an integer that fits.
pub open spec fn u64_of(v: Value) -> Option<u64> {
    match v {
        Value::PosInt(n) => Some(n),
        Value::NegInt(n) => if n >= 0 { Some(n as u64) } else { None },
        _ => None,
    }
}

/// The value as an `i64`, where it is an integer that fits.
pub open spec fn i64_of(v: Value) -> Option<i64> {
    match v {
        Value::PosInt(n) => if n <= i64::MAX { Some(n as i64) } else { None },
        Value::NegInt(n) => Some(n),
        _ => None,
    }
}

/// The characters of a value that is a valid UTF-8 string.
pub open spec fn str_of(v: Value) -> Option<Seq<char>> {
    match v {
        Value::String(Some(s)) => Some(s@),
        _ => None,
    }
}

/// The elements of an array value.
pub open spec fn array_of(v: Value) -> Option<Seq<Value>> {
    match v {
        Value::Array(a) => Some(a@),
        _ => None,
    }
}

/// The key-value pairs of a map value.
pub open spec fn pairs_of(v: Value) -> Option<Seq<(Value, Value)>> {
    match v {
        Value::Pairs(p) => Some(p@),
        _ => None,
    }
}

impl Value {
    pub fn as_bool(&self) -> (r: Option<bool>)
        ensures
            r == bool_of(*self),
    {
        match self {
            Value::Boolean(b) => Some(*b),
            _ => None,
        }
    }

    pub fn as_u64(&self) -> (r: Option<u64>)
        ensures
            r == u64_of(*self),
    {
        match self {
            Value::PosInt(n) => Some(*n),
            Value::NegInt(n) => if *n >= 0 {
                Some(*n as u64)
            } else {
                None
            },
            _ => None,
        }
    }

    pub fn as_i64(&self) -> (r: Option<i64>)
        ensures
            r == i64_of(*self),
    {
        match self {
            Value::PosInt(n) => if *n <= 0x7fff_ffff_ffff_ffff {
                Some(*n as i64)
            } else {
                None
            },
            Value::NegInt(n) => Some(*n),
            _ => None,
        }
    }

    pub fn as_str(&self) -> (r: Option<&str>)
        ensures
            r.is_some() == str_of(*self).is_some(),
            r matches Some(s) ==> s@ == str_of(*self).unwrap(),
    {
        match self {
            Value::String(Some(s)) => Some(s.as_str()),
            _ => None,
        }
    }

    pub fn as_array(&self) -> (r: Option<&Vec<Value>>)
        ensures
            r.is_some() == array_of(*self).is_some(),
            r matches Some(a) ==> a@ == array_of(*self).unwrap(),
    {
        match self {
            Value::Array(a) => Some(a),
            _ => None,
        }
    }

    pub fn as_map(&self) -> (r: Option<&Vec<(Value, Value)>>)
        ensures
            r.is_some() == pairs_of(*self).is_some(),
            r matches Some(p) ==> p@ == pairs_of(*self).unwrap(),
    {
        match self {
            Value::Pairs(p) => Some(p),
            _ => None,
        }
    }
}

/// Takes the first element out of `v`.
pub fn take_front<T>(v: &mut Vec<T>) -> (r: Option<T>)
    ensures
        old(v)@.len() == 0 ==> r.is_none() && final(v)@ == old(v)@,
        old(v)@.len() > 0 ==> r == Some(old(v)@[0]) && final(v)@ == old(v)@.drop_first(),
{
    if v.len() == 0 {
        None
    } else {
        let x = v.remove(0);
        assert(v@ =~= old(v)@.drop_first());
        Some(x)
    }
}

} // verus!
