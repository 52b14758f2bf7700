//! The Kotlin bindings generator.
//!
//! Emits the Kotlin-side expressions for a component: for each interface
//! type, the Kotlin type to declare, the C-compatible type it crosses the
//! boundary as, and the expressions that lower and lift values of it.
//!
//! Only the types [`kt_declarable`] admits have a Kotlin rendering. The
//! three lowering filters — [`lower_kt`], [`lower_into_kt`] and
//! [`lowers_into_size_kt`] — splice a value into a pre-built optional
//! helper, so an optional type has no rendering of its own through them:
//! their defining recursion never bottoms out there, and their contracts
//! leave optionals out.

use vstd::prelude::*;
use vstd::pervasive::unreached;
use vstd::string::StringExecFns;

use crate::interface::ComponentInterface;
use crate::interface::TypeReference;

verus! {

/// Configuration for the generated Kotlin: details that do not affect the
/// underlying component, such as the package it is declared in.
pub struct Config {
    pub package_name: String,
}

impl Config {
    /// The default configuration for a component: its bindings live in a
    /// package named after the component's namespace.
    pub fn from(ci: &ComponentInterface) -> (r: Config)
        ensures
            r.package_name@ == "uniffi."@ + ci.namespace@,
    {
        let mut package_name = String::from_str("uniffi.");
        package_name.append(ci.namespace().as_str());
        assert(package_name@ =~= "uniffi."@ + ci.namespace@);
        Config { package_name }
    }
}

/// The template context for a component's Kotlin bindings.
pub struct KotlinWrapper<'a> {
    pub config: Config,
    pub ci: &'a ComponentInterface,
}

impl<'a> KotlinWrapper<'a> {
    /// A Kotlin template over the given interface and configuration.
    pub fn new(config: Config, ci: &'a ComponentInterface) -> (r: Self)
        ensures
            r.config == config,
            r.ci == ci,
    {
        Self { config, ci }
    }
}

/// Whether a type has a Kotlin declaration: objects and sequences do not,
/// and an optional follows its payload.
pub open spec fn kt_declarable(t: TypeReference) -> bool
    decreases t,
{
    match t {
        TypeReference::Object(_) => false,
        TypeReference::Sequence(_) => false,
        TypeReference::Optional(inner) => kt_declarable(*inner),
        _ => true,
    }
}

/// The Kotlin type that declares a value of an interface type.
pub open spec fn decl_kt_spec(t: TypeReference) -> Seq<char>
    decreases t,
{
    match t {
        TypeReference::U32 => "Int"@,
        TypeReference::U64 => "Long"@,
        TypeReference::Float => "Float"@,
        TypeReference::Double => "Double"@,
        TypeReference::Bytes => "RustBuffer.ByValue"@,
        TypeReference::Boolean => "Boolean"@,
        TypeReference::Enum(name) => name@,
        TypeReference::Record(name) => name@,
        TypeReference::Optional(inner) => decl_kt_spec(*inner) + "?"@,
        _ => Seq::empty(),
    }
}

/// Renders the Kotlin type declaring a value of `type_`.
pub fn decl_kt(type_: &TypeReference) -> (r: Result<String, askama::Error>)
    requires
        kt_declarable(*type_),
    ensures
        r matches Ok(s) && s@ == decl_kt_spec(*type_),
    decreases *type_,
{
    match type_ {
        TypeReference::U32 => Ok(String::from_str("Int")),
        TypeReference::U64 => Ok(String::from_str("Long")),
        TypeReference::Float => Ok(String::from_str("Float")),
        TypeReference::Double => Ok(String::from_str("Double")),
        TypeReference::Bytes => Ok(String::from_str("RustBuffer.ByValue")),
        TypeReference::Boolean => Ok(String::from_str("Boolean")),
        TypeReference::Enum(name) => Ok(name.clone()),
        TypeReference::Record(name) => Ok(name.clone()),
        TypeReference::Optional(inner) => {
            let mut s = decl_kt(&*inner)?;
            s.append("?");
            assert(s@ =~= decl_kt_spec(*type_));
            Ok(s)
        },
        _ => unreached(),
    }
}

/// Whether a type has a C-compatible Kotlin declaration.
pub open spec fn c_declarable(t: TypeReference) -> bool {
    match t {
        TypeReference::Boolean => true,
        TypeReference::Enum(_) => true,
        TypeReference::Record(_) => true,
        TypeReference::Optional(_) => true,
        TypeReference::Object(_) => true,
        _ => kt_declarable(t),
    }
}

/// The C-compatible Kotlin type a value of `t` crosses the boundary as:
/// conversions happen on the Kotlin side of that type.
pub open spec fn decl_c_spec(t: TypeReference) -> Seq<char> {
    match t {
        TypeReference::Boolean => "Byte"@,
        TypeReference::Enum(_) => "Int"@,
        TypeReference::Record(_) => "RustBuffer.ByValue"@,
        TypeReference::Optional(_) => "RustBuffer.ByValue"@,
        TypeReference::Object(_) => "Long"@,
        _ => decl_kt_spec(t),
    }
}

/// Renders the C-compatible Kotlin type for a value of `type_`.
pub fn decl_c(type_: &TypeReference) -> (r: Result<String, askama::Error>)
    requires
        c_declarable(*type_),
    ensures
        r matches Ok(s) && s@ == decl_c_spec(*type_),
{
    match type_ {
        TypeReference::Boolean => Ok(String::from_str("Byte")),
        TypeReference::Enum(_) => Ok(String::from_str("Int")),
        TypeReference::Record(_) => Ok(String::from_str("RustBuffer.ByValue")),
        TypeReference::Optional(_) => Ok(String::from_str("RustBuffer.ByValue")),
        TypeReference::Object(_) => Ok(String::from_str("Long")),
        _ => decl_kt(type_),
    }
}

/// The Kotlin expression that lowers a named non-optional value.
pub open spec fn lower_kt_spec(nm: Seq<char>, t: TypeReference) -> Seq<char> {
    "("@ + nm + " as "@ + decl_kt_spec(t) + ").lower()"@
}

/// Renders the expression lowering `nm` into its boundary form.
pub fn lower_kt(nm: &str, type_: &TypeReference) -> (r: Result<String, askama::Error>)
    requires
        kt_declarable(*type_),
        !(*type_ matches TypeReference::Optional(_)),
    ensures
        r matches Ok(s) && s@ == lower_kt_spec(nm@, *type_),
{
    let decl = decl_kt(type_)?;
    let mut s = String::from_str("(");
    s.append(nm);
    s.append(" as ");
    s.append(decl.as_str());
    s.append(").lower()");
    assert(s@ =~= lower_kt_spec(nm@, *type_));
    Ok(s)
}

/// The Kotlin expression that lowers a named non-optional value into a
/// byte buffer.
pub open spec fn lower_into_kt_spec(nm: Seq<char>, target: Seq<char>, t: TypeReference) -> Seq<
    char,
> {
    "("@ + nm + " as "@ + decl_kt_spec(t) + ").lowerInto("@ + target + ")"@
}

/// Renders the expression lowering `nm` into the byte buffer `target`.
pub fn lower_into_kt(nm: &str, target: &str, type_: &TypeReference) -> (r: Result<
    String,
    askama::Error,
>)
    requires
        kt_declarable(*type_),
        !(*type_ matches TypeReference::Optional(_)),
    ensures
        r matches Ok(s) && s@ == lower_into_kt_spec(nm@, target@, *type_),
{
    let decl = decl_kt(type_)?;
    let mut s = String::from_str("(");
    s.append(nm);
    s.append(" as ");
    s.append(decl.as_str());
    s.append(").lowerInto(");
    s.append(target);
    s.append(")");
    assert(s@ =~= lower_into_kt_spec(nm@, target@, *type_));
    Ok(s)
}

/// The Kotlin expression that sizes a named non-optional value's lowered
/// form ahead of allocation.
pub open spec fn lowers_into_size_kt_spec(nm: Seq<char>, t: TypeReference) -> Seq<char> {
    "("@ + nm + " as "@ + decl_kt_spec(t) + ").lowersIntoSize()"@
}

/// Renders the expression sizing `nm`'s lowered form.
pub fn lowers_into_size_kt(nm: &str, type_: &TypeReference) -> (r: Result<String, askama::Error>)
    requires
        kt_declarable(*type_),
        !(*type_ matches TypeReference::Optional(_)),
    ensures
        r matches Ok(s) && s@ == lowers_into_size_kt_spec(nm@, *type_),
{
    let decl = decl_kt(type_)?;
    let mut s = String::from_str("(");
    s.append(nm);
    s.append(" as ");
    s.append(decl.as_str());
    s.append(").lowersIntoSize()");
    assert(s@ =~= lowers_into_size_kt_spec(nm@, *type_));
    Ok(s)
}

/// The Kotlin expression that lifts a value of `t` out of a byte buffer.
pub open spec fn lift_from_kt_spec(nm: Seq<char>, t: TypeReference) -> Seq<char>
    decreases t,
{
    match t {
        TypeReference::Optional(inner) => "liftFromOptional("@ + nm + ", { buf -> "@
            + lift_from_kt_spec("buf"@, *inner) + " })"@,
        _ => decl_kt_spec(t) + ".liftFrom("@ + nm + ")"@,
    }
}

/// The Kotlin expression that lifts a named boundary value of `t`.
pub open spec fn lift_kt_spec(nm: Seq<char>, t: TypeReference) -> Seq<char> {
    match t {
        TypeReference::Optional(inner) => "liftOptional("@ + nm + ", { buf -> "@
            + lift_from_kt_spec("buf"@, *inner) + " })"@,
        _ => decl_kt_spec(t) + ".lift("@ + nm + ")"@,
    }
}

/// Renders the expression lifting the boundary value `nm`.
pub fn lift_kt(nm: &str, type_: &TypeReference) -> (r: Result<String, askama::Error>)
    requires
        kt_declarable(*type_),
    ensures
        r matches Ok(s) && s@ == lift_kt_spec(nm@, *type_),
{
    match type_ {
        TypeReference::Optional(inner) => {
            let from_inner = lift_from_kt("buf", &*inner)?;
            let mut s = String::from_str("liftOptional(");
            s.append(nm);
            s.append(", { buf -> ");
            s.append(from_inner.as_str());
            s.append(" })");
            assert(s@ =~= lift_kt_spec(nm@, *type_));
            Ok(s)
        },
        _ => {
            let decl = decl_kt(type_)?;
            let mut s = decl;
            s.append(".lift(");
            s.append(nm);
            s.append(")");
            assert(s@ =~= lift_kt_spec(nm@, *type_));
            Ok(s)
        },
    }
}

/// Renders the expression lifting a value of `type_` out of the byte
/// buffer `nm`.
pub fn lift_from_kt(nm: &str, type_: &TypeReference) -> (r: Result<String, askama::Error>)
    requires
        kt_declarable(*type_),
    ensures
        r matches Ok(s) && s@ == lift_from_kt_spec(nm@, *type_),
    decreases *type_,
{
    match type_ {
        TypeReference::Optional(inner) => {
            let from_inner = lift_from_kt("buf", &*inner)?;
            let mut s = String::from_str("liftFromOptional(");
            s.append(nm);
            s.append(", { buf -> ");
            s.append(from_inner.as_str());
            s.append(" })");
            assert(s@ =~= lift_from_kt_spec(nm@, *type_));
            Ok(s)
        },
        _ => {
            let decl = decl_kt(type_)?;
            let mut s = decl;
            s.append(".liftFrom(");
            s.append(nm);
            s.append(")");
            assert(s@ =~= lift_from_kt_spec(nm@, *type_));
            Ok(s)
        },
    }
}

} // verus!
