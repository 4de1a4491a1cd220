//! The type mapper: for each kind of interface type, the native declaration
//! that carries it across the boundary and the Python text that coerces,
//! lowers and lifts a value of it.
//!
//! Every rule is a pure function of the type (and of the names it is given).
//! A kind that a rule does not cover is rejected with
//! [`GenerationError::UnsupportedType`], which names the offending type.

use crate::error::{GenerationError, GenerationFailure, Outcome};
use crate::interface::{TypeKind, TypeReference};
use vstd::prelude::*;
use vstd::string::*;

verus! {

/// The C-level declaration types that the generated bindings use.
#[derive(Clone, Copy, Debug, PartialEq, Eq, Structural)]
pub enum DeclType {
    UInt32,
    UInt64,
    Float,
    Double,
    Byte,
    RustBuffer,
}

impl DeclType {
    /// The `ctypes` spelling of the declaration.
    pub open spec fn spelling(self) -> Seq<char> {
        match self {
            DeclType::UInt32 => "ctypes.c_uint32"@,
            DeclType::UInt64 => "ctypes.c_uint64"@,
            DeclType::Float => "ctypes.c_float"@,
            DeclType::Double => "ctypes.c_double"@,
            DeclType::Byte => "ctypes.c_byte"@,
            DeclType::RustBuffer => "RustBuffer"@,
        }
    }

    /// The `ctypes` spelling of the declaration, as text.
    pub fn name(self) -> (r: String)
        ensures
            r@ == self.spelling(),
    {
        match self {
            DeclType::UInt32 => String::from_str("ctypes.c_uint32"),
            DeclType::UInt64 => String::from_str("ctypes.c_uint64"),
            DeclType::Float => String::from_str("ctypes.c_float"),
            DeclType::Double => String::from_str("ctypes.c_double"),
            DeclType::Byte => String::from_str("ctypes.c_byte"),
            DeclType::RustBuffer => String::from_str("RustBuffer"),
        }
    }
}

/// The declaration type of each kind: scalars by their own width, enumerations
/// as a 32-bit ordinal, objects as a 64-bit handle, everything that is
/// serialized as the shared buffer. `None` for a kind that has no declaration.
pub open spec fn native_declaration(t: TypeKind) -> Option<DeclType> {
    match t {
        TypeKind::U32 => Some(DeclType::UInt32),
        TypeKind::U64 => Some(DeclType::UInt64),
        TypeKind::Float => Some(DeclType::Float),
        TypeKind::Double => Some(DeclType::Double),
        TypeKind::Boolean => Some(DeclType::Byte),
        TypeKind::Bytes => Some(DeclType::RustBuffer),
        TypeKind::Enum(_) => Some(DeclType::UInt32),
        TypeKind::Record(_) => Some(DeclType::RustBuffer),
        TypeKind::Optional(_) => Some(DeclType::RustBuffer),
        TypeKind::Object(_) => Some(DeclType::UInt64),
        TypeKind::Sequence(_) => None,
        TypeKind::Mapping(_) => None,
    }
}

/// What a rule prescribes: the text, or the failure that names the kind for
/// which the rule has no answer.
pub type Prescribed = Outcome<Seq<char>>;

/// The failure of a rule on the kind `t`.
pub open spec fn unsupported(t: TypeKind) -> Prescribed {
    Err(GenerationFailure::UnsupportedType(t))
}

/// The contract shared by the rules: the outcome `r` is what the rule prescribes.
pub open spec fn agrees(r: Result<String, GenerationError>, expected: Prescribed) -> bool {
    match r {
        Ok(text) => expected == Ok::<Seq<char>, GenerationFailure>(text@),
        Err(e) => expected == Err::<Seq<char>, GenerationFailure>(e@),
    }
}

/// The native declaration type of `type_`.
pub fn native_declaration_type(type_: &TypeReference) -> (r: Result<DeclType, GenerationError>)
    ensures
        match r {
            Ok(d) => native_declaration(type_@) == Some(d),
            Err(e) => {
                &&& native_declaration(type_@) is None
                &&& e@ == GenerationFailure::UnsupportedType(type_@)
            },
        },
{
    match type_ {
        TypeReference::U32 => Ok(DeclType::UInt32),
        TypeReference::U64 => Ok(DeclType::UInt64),
        TypeReference::Float => Ok(DeclType::Float),
        TypeReference::Double => Ok(DeclType::Double),
        TypeReference::Boolean => Ok(DeclType::Byte),
        TypeReference::Bytes => Ok(DeclType::RustBuffer),
        TypeReference::Enum(_) => Ok(DeclType::UInt32),
        TypeReference::Record(_) => Ok(DeclType::RustBuffer),
        TypeReference::Optional(_) => Ok(DeclType::RustBuffer),
        TypeReference::Object(_) => Ok(DeclType::UInt64),
        TypeReference::Sequence(_) | TypeReference::Mapping(_) => Err(
            GenerationError::UnsupportedType(type_.duplicate()),
        ),
    }
}

/// What [`decl_c`] prescribes.
pub open spec fn decl_c_text(t: TypeKind) -> Prescribed {
    match native_declaration(t) {
        Some(d) => Ok(d.spelling()),
        None => unsupported(t),
    }
}

/// The spelling of the native declaration type of `type_`.
pub fn decl_c(type_: &TypeReference) -> (r: Result<String, GenerationError>)
    ensures
        agrees(r, decl_c_text(type_@)),
{
    match native_declaration_type(type_) {
        Ok(d) => Ok(d.name()),
        Err(e) => Err(e),
    }
}

/// What [`coerce_py`] prescribes: a scalar is kept as it is, an enumeration is
/// wrapped in its type, a record goes through its type's own check.
pub open spec fn coerce_py_text(nm: Seq<char>, t: TypeKind) -> Prescribed {
    if t.is_scalar() {
        Ok(nm + " = "@ + nm)
    } else {
        match t {
            TypeKind::Enum(name) => Ok(nm + " = "@ + name + "("@ + nm + ")"@),
            TypeKind::Record(name) => Ok(nm + " = "@ + name + "._coerce("@ + nm + ")"@),
            _ => unsupported(t),
        }
    }
}

/// The statement that normalizes the argument `nm` of type `type_` before it
/// is lowered.
pub fn coerce_py(nm: &str, type_: &TypeReference) -> (r: Result<String, GenerationError>)
    ensures
        agrees(r, coerce_py_text(nm@, type_@)),
{
    match type_ {
        TypeReference::U32
        | TypeReference::U64
        | TypeReference::Float
        | TypeReference::Double
        | TypeReference::Boolean => {
            let mut text = String::from_str(nm);
            text.append(" = ");
            text.append(nm);
            Ok(text)
        },
        TypeReference::Enum(enum_name) => {
            let mut text = String::from_str(nm);
            text.append(" = ");
            text.append(enum_name.as_str());
            text.append("(");
            text.append(nm);
            text.append(")");
            Ok(text)
        },
        TypeReference::Record(record_name) => {
            let mut text = String::from_str(nm);
            text.append(" = ");
            text.append(record_name.as_str());
            text.append("._coerce(");
            text.append(nm);
            text.append(")");
            Ok(text)
        },
        _ => Err(GenerationError::UnsupportedType(type_.duplicate())),
    }
}

/// What [`lowers_into_size_py`] prescribes: a double costs eight bytes, a
/// record what its own size pass says.
pub open spec fn lowers_into_size_py_text(nm: Seq<char>, t: TypeKind) -> Prescribed {
    match t {
        TypeKind::Double => Ok("8"@),
        TypeKind::Record(name) => Ok(name + "._lowersIntoSize("@ + nm + ")"@),
        _ => unsupported(t),
    }
}

/// The expression for the number of bytes that the value `nm` of type `type_`
/// takes in a buffer.
pub fn lowers_into_size_py(nm: &str, type_: &TypeReference) -> (r: Result<String, GenerationError>)
    ensures
        agrees(r, lowers_into_size_py_text(nm@, type_@)),
{
    match type_ {
        TypeReference::Double => Ok(String::from_str("8")),
        TypeReference::Record(record_name) => {
            let mut text = record_name.clone();
            text.append("._lowersIntoSize(");
            text.append(nm);
            text.append(")");
            Ok(text)
        },
        _ => Err(GenerationError::UnsupportedType(type_.duplicate())),
    }
}

/// What [`lower_into_py`] prescribes.
pub open spec fn lower_into_py_text(nm: Seq<char>, target: Seq<char>, t: TypeKind) -> Prescribed {
    match t {
        TypeKind::Double => Ok(target + ".putDouble("@ + nm + ")"@),
        TypeKind::Record(name) => Ok(name + "._lowerInto("@ + nm + ", "@ + target + ")"@),
        _ => unsupported(t),
    }
}

/// The statement that writes the value `nm` of type `type_` into the buffer
/// stream `target`.
pub fn lower_into_py(nm: &str, target: &str, type_: &TypeReference) -> (r: Result<
    String,
    GenerationError,
>)
    ensures
        agrees(r, lower_into_py_text(nm@, target@, type_@)),
{
    match type_ {
        TypeReference::Double => {
            let mut text = String::from_str(target);
            text.append(".putDouble(");
            text.append(nm);
            text.append(")");
            Ok(text)
        },
        TypeReference::Record(record_name) => {
            let mut text = record_name.clone();
            text.append("._lowerInto(");
            text.append(nm);
            text.append(", ");
            text.append(target);
            text.append(")");
            Ok(text)
        },
        _ => Err(GenerationError::UnsupportedType(type_.duplicate())),
    }
}

/// What [`lower_py`] prescribes: a scalar passes unchanged, an enumeration
/// gives its ordinal, a record its buffer, and an optional goes through the
/// optional helper with the rule that writes its inner type.
pub open spec fn lower_py_text(nm: Seq<char>, t: TypeKind) -> Prescribed {
    if t.is_scalar() {
        Ok(nm)
    } else {
        match t {
            TypeKind::Enum(_) => Ok(nm + ".value"@),
            TypeKind::Record(name) => Ok(name + "._lower("@ + nm + ")"@),
            TypeKind::Optional(inner) => match lower_into_py_text("v"@, "buf"@, *inner) {
                Ok(body) => Ok("lowerOptional("@ + nm + ", lambda buf, v: "@ + body + ")"@),
                Err(e) => Err(e),
            },
            _ => unsupported(t),
        }
    }
}

/// The expression that turns the value `nm` of type `type_` into what is
/// handed to the native entry point.
pub fn lower_py(nm: &str, type_: &TypeReference) -> (r: Result<String, GenerationError>)
    ensures
        agrees(r, lower_py_text(nm@, type_@)),
{
    match type_ {
        TypeReference::U32
        | TypeReference::U64
        | TypeReference::Float
        | TypeReference::Double
        | TypeReference::Boolean => Ok(String::from_str(nm)),
        TypeReference::Enum(_) => {
            let mut text = String::from_str(nm);
            text.append(".value");
            Ok(text)
        },
        TypeReference::Record(record_name) => {
            let mut text = record_name.clone();
            text.append("._lower(");
            text.append(nm);
            text.append(")");
            Ok(text)
        },
        TypeReference::Optional(inner) => {
            match lower_into_py("v", "buf", inner) {
                Ok(body) => {
                    let mut text = String::from_str("lowerOptional(");
                    text.append(nm);
                    text.append(", lambda buf, v: ");
                    text.append(body.as_str());
                    text.append(")");
                    Ok(text)
                },
                Err(e) => Err(e),
            }
        },
        _ => Err(GenerationError::UnsupportedType(type_.duplicate())),
    }
}

/// What [`lift_from_py`] prescribes.
pub open spec fn lift_from_py_text(nm: Seq<char>, t: TypeKind) -> Prescribed {
    match t {
        TypeKind::Double => Ok(nm + ".getDouble()"@),
        TypeKind::Record(name) => Ok(name + "._liftFrom("@ + nm + ")"@),
        _ => unsupported(t),
    }
}

/// The expression that reads a value of type `type_` from the buffer stream `nm`.
pub fn lift_from_py(nm: &str, type_: &TypeReference) -> (r: Result<String, GenerationError>)
    ensures
        agrees(r, lift_from_py_text(nm@, type_@)),
{
    match type_ {
        TypeReference::Double => {
            let mut text = String::from_str(nm);
            text.append(".getDouble()");
            Ok(text)
        },
        TypeReference::Record(record_name) => {
            let mut text = record_name.clone();
            text.append("._liftFrom(");
            text.append(nm);
            text.append(")");
            Ok(text)
        },
        _ => Err(GenerationError::UnsupportedType(type_.duplicate())),
    }
}

/// What [`lift_py`] prescribes: the inverse of [`lower_py_text`], kind by kind.
pub open spec fn lift_py_text(nm: Seq<char>, t: TypeKind) -> Prescribed {
    if t.is_scalar() {
        Ok(nm)
    } else {
        match t {
            TypeKind::Enum(name) => Ok(name + "("@ + nm + ")"@),
            TypeKind::Record(name) => Ok(name + "._lift("@ + nm + ")"@),
            TypeKind::Optional(inner) => match lift_from_py_text("buf"@, *inner) {
                Ok(body) => Ok("liftOptional("@ + nm + ", lambda buf: "@ + body + ")"@),
                Err(e) => Err(e),
            },
            _ => unsupported(t),
        }
    }
}

/// The expression that turns what the native entry point returned in `nm`
/// back into a value of type `type_`.
pub fn lift_py(nm: &str, type_: &TypeReference) -> (r: Result<String, GenerationError>)
    ensures
        agrees(r, lift_py_text(nm@, type_@)),
{
    match type_ {
        TypeReference::U32
        | TypeReference::U64
        | TypeReference::Float
        | TypeReference::Double
        | TypeReference::Boolean => Ok(String::from_str(nm)),
        TypeReference::Enum(enum_name) => {
            let mut text = enum_name.clone();
            text.append("(");
            text.append(nm);
            text.append(")");
            Ok(text)
        },
        TypeReference::Record(record_name) => {
            let mut text = record_name.clone();
            text.append("._lift(");
            text.append(nm);
            text.append(")");
            Ok(text)
        },
        TypeReference::Optional(inner) => {
            match lift_from_py("buf", inner) {
                Ok(body) => {
                    let mut text = String::from_str("liftOptional(");
                    text.append(nm);
                    text.append(", lambda buf: ");
                    text.append(body.as_str());
                    text.append(")");
                    Ok(text)
                },
                Err(e) => Err(e),
            }
        },
        _ => Err(GenerationError::UnsupportedType(type_.duplicate())),
    }
}

/// The rules fail fast: for a kind outside the supported set, here a sequence
/// or a mapping, every rule fails and names that kind.
pub proof fn lemma_unlisted_kinds_are_rejected(nm: Seq<char>, target: Seq<char>, t: TypeKind)
    requires
        t is Sequence || t is Mapping,
    ensures
        decl_c_text(t) == unsupported(t),
        coerce_py_text(nm, t) == unsupported(t),
        lower_py_text(nm, t) == unsupported(t),
        lowers_into_size_py_text(nm, t) == unsupported(t),
        lower_into_py_text(nm, target, t) == unsupported(t),
        lift_py_text(nm, t) == unsupported(t),
        lift_from_py_text(nm, t) == unsupported(t),
{
}

/// Lowering and lifting cover the same kinds, so that whatever can be sent
/// can be received. Each of these kinds has a native declaration type, and
/// inside a buffer the size pass, the write pass and the read pass cover the
/// same kinds too.
pub proof fn lemma_lift_covers_what_lower_covers(
    nm: Seq<char>,
    target: Seq<char>,
    other: Seq<char>,
    t: TypeKind,
)
    ensures
        lower_py_text(nm, t) is Ok <==> lift_py_text(other, t) is Ok,
        lower_py_text(nm, t) is Ok ==> native_declaration(t) is Some,
        lower_into_py_text(nm, target, t) is Ok <==> lift_from_py_text(other, t) is Ok,
        lower_into_py_text(nm, target, t) is Ok <==> lowers_into_size_py_text(other, t) is Ok,
{
}

} // verus!
