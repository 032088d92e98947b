//! The structural hash of a value: values that are the same have the same
//! hash.

use vstd::prelude::*;
use vstd::utf8::encode_utf8;
use crate::analyzer::{
    Constant, ConstantValue, FreeVarKind, JsValue, Value, WellKnownFunction,
    WellKnownFunctionKind, WellKnownObjectKind, models,
};

verus! {

/// Every hash is below this number, a prime.
pub const HASH_MODULUS: u64 = 4294967291;

/// A hash and one more item, mixed.
pub open spec fn mixed(seed: nat, item: nat) -> nat {
    (seed * 31 + item) % (HASH_MODULUS as nat)
}

/// A hash and the first `count` of the bytes, mixed in order.
pub open spec fn hashed_bytes(bytes: Seq<u8>, count: nat, seed: nat) -> nat
    decreases count,
{
    if count == 0 || count > bytes.len() {
        seed
    } else {
        mixed(hashed_bytes(bytes, (count - 1) as nat, seed), bytes[count - 1] as nat)
    }
}

/// A hash and a text, mixed: the bytes of its encoding, then its length.
pub open spec fn hashed_text(text: Seq<char>, seed: nat) -> nat {
    mixed(
        hashed_bytes(encode_utf8(text), encode_utf8(text).len(), seed),
        encode_utf8(text).len() % (HASH_MODULUS as nat),
    )
}

/// The hash of a literal.
pub open spec fn hashed_constant(constant: Constant) -> nat {
    match constant {
        Constant::Str(text) => hashed_text(text, 1),
        Constant::Num(text) => hashed_text(text, 2),
        Constant::Bool(flag) => if flag {
            3
        } else {
            4
        },
        Constant::Null => 5,
        Constant::Undefined => 6,
        Constant::Regex(source, flags) => hashed_text(flags, hashed_text(source, 7)),
    }
}

/// The hash of a free variable.
pub open spec fn hashed_free_var(kind: FreeVarKind) -> nat {
    match kind {
        FreeVarKind::Require => 11,
        FreeVarKind::Import => 12,
        FreeVarKind::Dirname => 13,
        FreeVarKind::Filename => 14,
        FreeVarKind::Global => 15,
    }
}

/// The hash of a known function.
pub open spec fn hashed_function(function: WellKnownFunction) -> nat {
    match function {
        WellKnownFunction::Require => 21,
        WellKnownFunction::RequireResolve => 22,
        WellKnownFunction::Import => 23,
        WellKnownFunction::FsReadMethod(name) => hashed_text(name, 24),
        WellKnownFunction::PathJoin => 25,
        WellKnownFunction::PathResolve => 26,
        WellKnownFunction::PathDirname => 27,
    }
}

/// The hash of a known object.
pub open spec fn hashed_object(object: WellKnownObjectKind) -> nat {
    match object {
        WellKnownObjectKind::PathModule => 31,
        WellKnownObjectKind::FsModule => 32,
        WellKnownObjectKind::ProcessModule => 33,
    }
}

/// The structural hash of a value: the kind of the value, mixed with the
/// hashes of its parts.
pub open spec fn hashed(value: Value) -> nat
    decreases value, 0nat,
{
    match value {
        Value::Constant(constant) => mixed(41, hashed_constant(constant)),
        Value::FreeVar(kind) => mixed(42, hashed_free_var(kind)),
        Value::Module(name) => hashed_text(name, 43),
        Value::WellKnownFunction(function) => mixed(44, hashed_function(function)),
        Value::WellKnownObject(object) => mixed(45, hashed_object(object)),
        Value::Variable(id) => mixed(46, id as nat % (HASH_MODULUS as nat)),
        Value::Call(function, this, arguments) => hashed_list(
            arguments,
            arguments.len(),
            mixed(mixed(47, hashed(*function)), hashed(*this)),
        ),
        Value::MemberAccess(object, property) => mixed(
            mixed(48, hashed(*object)),
            hashed(*property),
        ),
        Value::Concat(parts) => hashed_list(parts, parts.len(), 49),
        Value::Add(parts) => hashed_list(parts, parts.len(), 50),
        Value::Alternatives(alts) => hashed_list(alts, alts.len(), 51),
        Value::Unknown => 52,
    }
}

/// A hash and the hashes of the first `count` of the values, mixed in order.
pub open spec fn hashed_list(values: Seq<Value>, count: nat, seed: nat) -> nat
    decreases values, count,
{
    if count == 0 || count > values.len() {
        seed
    } else {
        mixed(hashed_list(values, (count - 1) as nat, seed), hashed(values[count - 1]))
    }
}

/// Mixes one more item into a hash.
fn mix(seed: u64, item: u64) -> (hash: u64)
    requires
        seed < HASH_MODULUS,
        item < HASH_MODULUS,
    ensures
        hash == mixed(seed as nat, item as nat),
        hash < HASH_MODULUS,
{
    (seed * 31 + item) % HASH_MODULUS
}

/// Mixes a text into a hash.
fn hash_text(text: &String, seed: u64) -> (hash: u64)
    requires
        seed < HASH_MODULUS,
    ensures
        hash == hashed_text(text@, seed as nat),
        hash < HASH_MODULUS,
{
    let bytes = text.as_str().as_bytes();
    let mut hash = seed;
    let mut i: usize = 0;
    while i < bytes.len()
        invariant
            i <= bytes.len(),
            hash < HASH_MODULUS,
            hash == hashed_bytes(bytes@, i as nat, seed as nat),
        decreases bytes.len() - i,
    {
        hash = mix(hash, bytes[i] as u64);
        i += 1;
    }
    mix(hash, (bytes.len() as u64) % HASH_MODULUS)
}

/// The hash of a literal.
fn hash_constant(constant: &ConstantValue) -> (hash: u64)
    ensures
        hash == hashed_constant(constant@),
        hash < HASH_MODULUS,
{
    match constant {
        ConstantValue::Str(text) => hash_text(text, 1),
        ConstantValue::Num(text) => hash_text(text, 2),
        ConstantValue::Bool(flag) => if *flag {
            3
        } else {
            4
        },
        ConstantValue::Null => 5,
        ConstantValue::Undefined => 6,
        ConstantValue::Regex(source, flags) => hash_text(flags, hash_text(source, 7)),
    }
}

/// The hash of a known function.
fn hash_function(function: &WellKnownFunctionKind) -> (hash: u64)
    ensures
        hash == hashed_function(function@),
        hash < HASH_MODULUS,
{
    match function {
        WellKnownFunctionKind::Require => 21,
        WellKnownFunctionKind::RequireResolve => 22,
        WellKnownFunctionKind::Import => 23,
        WellKnownFunctionKind::FsReadMethod(name) => hash_text(name, 24),
        WellKnownFunctionKind::PathJoin => 25,
        WellKnownFunctionKind::PathResolve => 26,
        WellKnownFunctionKind::PathDirname => 27,
    }
}

/// Mixes the hashes of values into a hash.
fn hash_values(values: &Vec<JsValue>, seed: u64) -> (hash: u64)
    requires
        seed < HASH_MODULUS,
    ensures
        hash == hashed_list(models(values@), values.len() as nat, seed as nat),
        hash < HASH_MODULUS,
    decreases values,
{
    let mut hash = seed;
    let mut i: usize = 0;
    while i < values.len()
        invariant
            i <= values.len(),
            hash < HASH_MODULUS,
            hash == hashed_list(models(values@), i as nat, seed as nat),
        decreases values.len() - i,
    {
        hash = mix(hash, values[i].structural_hash());
        i += 1;
    }
    hash
}

impl JsValue {
    /// The structural hash of the value. Values that are the same have the
    /// same hash.
    pub fn structural_hash(&self) -> (hash: u64)
        ensures
            hash == hashed(self@),
            hash < HASH_MODULUS,
        decreases self,
    {
        match self {
            JsValue::Constant(constant) => mix(41, hash_constant(constant)),
            JsValue::FreeVar(kind) => mix(
                42,
                match kind {
                    FreeVarKind::Require => 11,
                    FreeVarKind::Import => 12,
                    FreeVarKind::Dirname => 13,
                    FreeVarKind::Filename => 14,
                    FreeVarKind::Global => 15,
                },
            ),
            JsValue::Module(name) => hash_text(name, 43),
            JsValue::WellKnownFunction(function) => mix(44, hash_function(function)),
            JsValue::WellKnownObject(object) => mix(
                45,
                match object {
                    WellKnownObjectKind::PathModule => 31,
                    WellKnownObjectKind::FsModule => 32,
                    WellKnownObjectKind::ProcessModule => 33,
                },
            ),
            JsValue::Variable(id) => mix(46, *id % HASH_MODULUS),
            JsValue::Call(function, this, arguments) => {
                let seed = mix(mix(47, function.structural_hash()), this.structural_hash());
                hash_values(arguments, seed)
            },
            JsValue::MemberAccess(object, property) => mix(
                mix(48, object.structural_hash()),
                property.structural_hash(),
            ),
            JsValue::Concat(parts) => hash_values(parts, 49),
            JsValue::Add(parts) => hash_values(parts, 50),
            JsValue::Alternatives(alts) => hash_values(alts, 51),
            JsValue::Unknown => 52,
        }
    }
}

} // verus!
