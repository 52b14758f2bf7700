//! The data model of a component interface, as the binding generators
//! consume it: the types a component exposes, and the component's
//! namespace. The generators turn these values into source text for the
//! foreign side; nothing here crosses the boundary itself.

use vstd::prelude::*;

verus! {

/// A parsed component interface: what the generators need to know about
/// the component whose bindings they emit.
pub struct ComponentInterface {
    pub namespace: String,
}

impl ComponentInterface {
    /// A component interface with the given namespace.
    pub fn new(namespace: String) -> (r: ComponentInterface)
        ensures
            r.namespace == namespace,
    {
        ComponentInterface { namespace }
    }

    /// The component's namespace, naming the generated package or module.
    pub fn namespace(&self) -> (r: &String)
        ensures
            r == self.namespace,
    {
        &self.namespace
    }
}

/// A type of the component's interface, as the scaffolding generator sees
/// it.
#[derive(Debug, PartialEq)]
pub enum Type {
    Int8,
    UInt8,
    Int16,
    UInt16,
    Int32,
    UInt32,
    Int64,
    UInt64,
    Float32,
    Float64,
    Boolean,
    String,
    Enum(String),
    Record(String),
    Error(String),
    Object(String),
    CallbackInterface(String),
    Optional(Box<Type>),
    Sequence(Box<Type>),
    Dictionary(Box<Type>),
}

/// An exact copy of a [`Type`].
pub fn clone_type(t: &Type) -> (r: Type)
    ensures
        r == *t,
    decreases *t,
{
    match t {
        Type::Int8 => Type::Int8,
        Type::UInt8 => Type::UInt8,
        Type::Int16 => Type::Int16,
        Type::UInt16 => Type::UInt16,
        Type::Int32 => Type::Int32,
        Type::UInt32 => Type::UInt32,
        Type::Int64 => Type::Int64,
        Type::UInt64 => Type::UInt64,
        Type::Float32 => Type::Float32,
        Type::Float64 => Type::Float64,
        Type::Boolean => Type::Boolean,
        Type::String => Type::String,
        Type::Enum(name) => Type::Enum(name.clone()),
        Type::Record(name) => Type::Record(name.clone()),
        Type::Error(name) => Type::Error(name.clone()),
        Type::Object(name) => Type::Object(name.clone()),
        Type::CallbackInterface(name) => Type::CallbackInterface(name.clone()),
        Type::Optional(inner) => Type::Optional(Box::new(clone_type(&*inner))),
        Type::Sequence(inner) => Type::Sequence(Box::new(clone_type(&*inner))),
        Type::Dictionary(inner) => Type::Dictionary(Box::new(clone_type(&*inner))),
    }
}

/// A type as it crosses the C ABI, as the scaffolding generator sees it.
#[derive(Debug, Clone, Copy, PartialEq, Eq, Structural)]
pub enum FFIType {
    Int8,
    UInt8,
    Int16,
    UInt16,
    Int32,
    UInt32,
    Int64,
    UInt64,
    Float32,
    Float64,
    RustCString,
    RustArcPtr,
    RustBuffer,
    RustError,
    ForeignBytes,
    ForeignCallback,
}

/// A type of the component's interface, as the Kotlin generator sees it.
#[derive(Debug, PartialEq)]
pub enum TypeReference {
    Boolean,
    U32,
    U64,
    Float,
    Double,
    Bytes,
    Enum(String),
    Record(String),
    Object(String),
    Optional(Box<TypeReference>),
    Sequence(Box<TypeReference>),
}

/// A literal default value attached to an interface member.
#[derive(Debug, PartialEq)]
pub enum Literal {
    Boolean(bool),
    UInt(u64),
    Enum(String, Type),
}

} // verus!
