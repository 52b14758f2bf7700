//! The Rust scaffolding generator.
//!
//! Emits the Rust-side glue expressions for a component: for each interface
//! type, the Rust type to declare, and the expressions that lower, lift,
//! write and read values of it at the boundary. Each filter returns the
//! exact source text its specification function describes; the template
//! host renders them into the scaffolding source file.

use vstd::prelude::*;
use vstd::pervasive::unreached;
use vstd::string::StringExecFns;

use crate::interface::clone_type;
use crate::interface::ComponentInterface;
use crate::interface::FFIType;
use crate::interface::Type;

verus! {

/// The version of this generator, stamped into what it emits.
pub const BINDGEN_VERSION: &'static str = "0.1.0";

/// The declared type of `askama`'s rendering error.
///
/// The filters report through `askama`'s error type so the template host
/// can splice them; none of them ever fails, so no error is ever built.
#[verifier::external_type_specification]
#[verifier::external_body]
pub struct ExAskamaError(askama::Error);

/// The template context for a component's Rust scaffolding.
pub struct RustScaffolding<'a> {
    pub ci: &'a ComponentInterface,
    pub uniffi_version: &'static str,
}

impl<'a> RustScaffolding<'a> {
    /// A scaffolding template over the given interface, stamped with this
    /// generator's version.
    pub fn new(ci: &'a ComponentInterface) -> (r: Self)
        ensures
            r.ci == ci,
            r.uniffi_version@ == BINDGEN_VERSION@,
    {
        Self { ci, uniffi_version: BINDGEN_VERSION }
    }
}

/// The type [`make_threadsafe`] wraps an object type into when the object
/// was not declared threadsafe.
pub open spec fn mutex_wrapped(name: Seq<char>) -> Seq<char> {
    "std::sync::Mutex<"@ + name + ">"@
}

/// Wraps a non-threadsafe object type in a mutex; every other type, and
/// every already-threadsafe object, stays as it is.
pub fn make_threadsafe(type_: &Type, already_threadsafe: &bool) -> (r: Type)
    ensures
        *already_threadsafe ==> r == *type_,
        !*already_threadsafe ==> match *type_ {
            Type::Object(name) => r matches Type::Object(wrapped) && wrapped@ == mutex_wrapped(
                name@,
            ),
            _ => r == *type_,
        },
{
    if *already_threadsafe {
        clone_type(type_)
    } else {
        match type_ {
            Type::Object(name) => {
                let mut wrapped = String::from_str("std::sync::Mutex<");
                wrapped.append(name.as_str());
                wrapped.append(">");
                assert(wrapped@ =~= mutex_wrapped(name@));
                Type::Object(wrapped)
            },
            _ => clone_type(type_),
        }
    }
}

/// Picks one of two renderings by a boolean.
pub fn select(expr_value: &bool, then_value: &str, else_value: &str) -> (r: Result<
    String,
    askama::Error,
>)
    ensures
        r matches Ok(s) && s@ == if *expr_value {
            then_value@
        } else {
            else_value@
        },
{
    Ok(
        if *expr_value {
            String::from_str(then_value)
        } else {
            String::from_str(else_value)
        },
    )
}

/// The Rust type that declares a value of an interface type.
pub open spec fn type_rs_spec(t: Type) -> Seq<char>
    decreases t,
{
    match t {
        Type::Int8 => "i8"@,
        Type::UInt8 => "u8"@,
        Type::Int16 => "i16"@,
        Type::UInt16 => "u16"@,
        Type::Int32 => "i32"@,
        Type::UInt32 => "u32"@,
        Type::Int64 => "i64"@,
        Type::UInt64 => "u64"@,
        Type::Float32 => "f32"@,
        Type::Float64 => "f64"@,
        Type::Boolean => "bool"@,
        Type::String => "String"@,
        Type::Enum(name) => name@,
        Type::Record(name) => name@,
        Type::Error(name) => name@,
        Type::Object(name) => "std::sync::Arc<"@ + name@ + ">"@,
        Type::CallbackInterface(name) => "Box<dyn "@ + name@ + ">"@,
        Type::Optional(inner) => "Option<"@ + type_rs_spec(*inner) + ">"@,
        Type::Sequence(inner) => "Vec<"@ + type_rs_spec(*inner) + ">"@,
        Type::Dictionary(inner) => "std::collections::HashMap<String, "@ + type_rs_spec(*inner) + ">"@,
    }
}

/// Renders the Rust type for an interface type; never fails.
pub fn type_rs(type_: &Type) -> (r: Result<String, askama::Error>)
    ensures
        r matches Ok(s) && s@ == type_rs_spec(*type_),
    decreases *type_,
{
    match type_ {
        Type::Int8 => Ok(String::from_str("i8")),
        Type::UInt8 => Ok(String::from_str("u8")),
        Type::Int16 => Ok(String::from_str("i16")),
        Type::UInt16 => Ok(String::from_str("u16")),
        Type::Int32 => Ok(String::from_str("i32")),
        Type::UInt32 => Ok(String::from_str("u32")),
        Type::Int64 => Ok(String::from_str("i64")),
        Type::UInt64 => Ok(String::from_str("u64")),
        Type::Float32 => Ok(String::from_str("f32")),
        Type::Float64 => Ok(String::from_str("f64")),
        Type::Boolean => Ok(String::from_str("bool")),
        Type::String => Ok(String::from_str("String")),
        Type::Enum(name) => Ok(name.clone()),
        Type::Record(name) => Ok(name.clone()),
        Type::Error(name) => Ok(name.clone()),
        Type::Object(name) => {
            let mut s = String::from_str("std::sync::Arc<");
            s.append(name.as_str());
            s.append(">");
            assert(s@ =~= type_rs_spec(*type_));
            Ok(s)
        },
        Type::CallbackInterface(name) => {
            let mut s = String::from_str("Box<dyn ");
            s.append(name.as_str());
            s.append(">");
            assert(s@ =~= type_rs_spec(*type_));
            Ok(s)
        },
        Type::Optional(inner) => {
            let inner_rs = type_rs(&*inner)?;
            let mut s = String::from_str("Option<");
            s.append(inner_rs.as_str());
            s.append(">");
            assert(s@ =~= type_rs_spec(*type_));
            Ok(s)
        },
        Type::Sequence(inner) => {
            let inner_rs = type_rs(&*inner)?;
            let mut s = String::from_str("Vec<");
            s.append(inner_rs.as_str());
            s.append(">");
            assert(s@ =~= type_rs_spec(*type_));
            Ok(s)
        },
        Type::Dictionary(inner) => {
            let inner_rs = type_rs(&*inner)?;
            let mut s = String::from_str("std::collections::HashMap<String, ");
            s.append(inner_rs.as_str());
            s.append(">");
            assert(s@ =~= type_rs_spec(*type_));
            Ok(s)
        },
    }
}

/// The C-compatible Rust type that carries an FFI type.
pub open spec fn type_ffi_spec(t: FFIType) -> Seq<char> {
    match t {
        FFIType::Int8 => "i8"@,
        FFIType::UInt8 => "u8"@,
        FFIType::Int16 => "i16"@,
        FFIType::UInt16 => "u16"@,
        FFIType::Int32 => "i32"@,
        FFIType::UInt32 => "u32"@,
        FFIType::Int64 => "i64"@,
        FFIType::UInt64 => "u64"@,
        FFIType::Float32 => "f32"@,
        FFIType::Float64 => "f64"@,
        FFIType::RustCString => "*mut std::os::raw::c_char"@,
        FFIType::RustArcPtr => "*const std::os::raw::c_void"@,
        FFIType::RustBuffer => "uniffi::RustBuffer"@,
        FFIType::RustError => "uniffi::deps::ffi_support::ExternError"@,
        FFIType::ForeignBytes => "uniffi::ForeignBytes"@,
        FFIType::ForeignCallback => "uniffi::ForeignCallback"@,
    }
}

/// Renders the C-compatible Rust type for an FFI type; never fails.
pub fn type_ffi(type_: &FFIType) -> (r: Result<String, askama::Error>)
    ensures
        r matches Ok(s) && s@ == type_ffi_spec(*type_),
{
    match type_ {
        FFIType::Int8 => Ok(String::from_str("i8")),
        FFIType::UInt8 => Ok(String::from_str("u8")),
        FFIType::Int16 => Ok(String::from_str("i16")),
        FFIType::UInt16 => Ok(String::from_str("u16")),
        FFIType::Int32 => Ok(String::from_str("i32")),
        FFIType::UInt32 => Ok(String::from_str("u32")),
        FFIType::Int64 => Ok(String::from_str("i64")),
        FFIType::UInt64 => Ok(String::from_str("u64")),
        FFIType::Float32 => Ok(String::from_str("f32")),
        FFIType::Float64 => Ok(String::from_str("f64")),
        FFIType::RustCString => Ok(String::from_str("*mut std::os::raw::c_char")),
        FFIType::RustArcPtr => Ok(String::from_str("*const std::os::raw::c_void")),
        FFIType::RustBuffer => Ok(String::from_str("uniffi::RustBuffer")),
        FFIType::RustError => Ok(String::from_str("uniffi::deps::ffi_support::ExternError")),
        FFIType::ForeignBytes => Ok(String::from_str("uniffi::ForeignBytes")),
        FFIType::ForeignCallback => Ok(String::from_str("uniffi::ForeignCallback")),
    }
}

/// The Rust type a value is lowered or lifted through: the declared type,
/// with objects wrapped as [`make_threadsafe`] wraps them.
pub open spec fn threadsafe_type_rs_spec(t: Type, already_threadsafe: bool) -> Seq<char> {
    if already_threadsafe {
        type_rs_spec(t)
    } else {
        match t {
            Type::Object(name) => "std::sync::Arc<"@ + mutex_wrapped(name@) + ">"@,
            _ => type_rs_spec(t),
        }
    }
}

/// The Rust expression that lowers a named value of an interface type.
pub open spec fn lower_rs_spec(nm: Seq<char>, t: Type, already_threadsafe: bool) -> Seq<char> {
    match t {
        Type::Object(_) => "uniffi::UniffiVoidPtr(<"@ + threadsafe_type_rs_spec(
            t,
            already_threadsafe,
        ) + " as uniffi::ViaFfi>::lower("@ + nm + "))"@,
        _ => "<"@ + threadsafe_type_rs_spec(t, already_threadsafe)
            + " as uniffi::ViaFfi>::lower("@ + nm + ")"@,
    }
}

/// Renders the expression lowering `nm` across the boundary. Lowering is
/// not defined for callback interfaces.
///
/// Naming the type in the rendered expression lets the Rust compiler
/// type-check the user's implementations against the generated code.
pub fn lower_rs(nm: &str, type_: &Type, threadsafe: &bool) -> (r: Result<String, askama::Error>)
    requires
        !(*type_ matches Type::CallbackInterface(_)),
    ensures
        r matches Ok(s) && s@ == lower_rs_spec(nm@, *type_, *threadsafe),
{
    match type_ {
        Type::CallbackInterface(_) => unreached(),
        Type::Object(_) => {
            let wrapped = make_threadsafe(type_, threadsafe);
            let ty = type_rs(&wrapped)?;
            proof {
                assert(ty@ =~= threadsafe_type_rs_spec(*type_, *threadsafe));
            }
            let mut s = String::from_str("uniffi::UniffiVoidPtr(<");
            s.append(ty.as_str());
            s.append(" as uniffi::ViaFfi>::lower(");
            s.append(nm);
            s.append("))");
            assert(s@ =~= lower_rs_spec(nm@, *type_, *threadsafe));
            Ok(s)
        },
        _ => {
            let wrapped = make_threadsafe(type_, threadsafe);
            let ty = type_rs(&wrapped)?;
            proof {
                assert(ty@ =~= threadsafe_type_rs_spec(*type_, *threadsafe));
            }
            let mut s = String::from_str("<");
            s.append(ty.as_str());
            s.append(" as uniffi::ViaFfi>::lower(");
            s.append(nm);
            s.append(")");
            assert(s@ =~= lower_rs_spec(nm@, *type_, *threadsafe));
            Ok(s)
        },
    }
}

/// The Rust expression that lifts a named boundary value back into an
/// interface type.
pub open spec fn lift_rs_spec(nm: Seq<char>, t: Type, already_threadsafe: bool) -> Seq<char> {
    match t {
        Type::CallbackInterface(name) => "Box::new(<"@ + name@
            + "Proxy as uniffi::ViaFfi>::try_lift("@ + nm + ").unwrap())"@,
        _ => "<"@ + threadsafe_type_rs_spec(t, already_threadsafe)
            + " as uniffi::ViaFfi>::try_lift("@ + nm + ").unwrap()"@,
    }
}

/// Renders the expression lifting `nm` back from the boundary; panics in
/// the generated code, not here, if the bindings hand over an invalid
/// value.
pub fn lift_rs(nm: &str, type_: &Type, threadsafe: &bool) -> (r: Result<String, askama::Error>)
    ensures
        r matches Ok(s) && s@ == lift_rs_spec(nm@, *type_, *threadsafe),
{
    match type_ {
        Type::CallbackInterface(name) => {
            let mut s = String::from_str("Box::new(<");
            s.append(name.as_str());
            s.append("Proxy as uniffi::ViaFfi>::try_lift(");
            s.append(nm);
            s.append(").unwrap())");
            assert(s@ =~= lift_rs_spec(nm@, *type_, *threadsafe));
            Ok(s)
        },
        _ => {
            let wrapped = make_threadsafe(type_, threadsafe);
            let ty = type_rs(&wrapped)?;
            proof {
                assert(ty@ =~= threadsafe_type_rs_spec(*type_, *threadsafe));
            }
            let mut s = String::from_str("<");
            s.append(ty.as_str());
            s.append(" as uniffi::ViaFfi>::try_lift(");
            s.append(nm);
            s.append(").unwrap()");
            assert(s@ =~= lift_rs_spec(nm@, *type_, *threadsafe));
            Ok(s)
        },
    }
}

/// The Rust expression that writes a named value into a byte buffer.
pub open spec fn write_rs_spec(nm: Seq<char>, target: Seq<char>, t: Type) -> Seq<char> {
    "<"@ + type_rs_spec(t) + " as uniffi::ViaFfi>::write(&"@ + nm + ", "@ + target + ")"@
}

/// Renders the expression writing `nm` into the byte buffer `target`.
/// Writing is not defined for callback interfaces.
pub fn write_rs(nm: &str, target: &str, type_: &Type) -> (r: Result<String, askama::Error>)
    requires
        !(*type_ matches Type::CallbackInterface(_)),
    ensures
        r matches Ok(s) && s@ == write_rs_spec(nm@, target@, *type_),
{
    match type_ {
        Type::CallbackInterface(_) => unreached(),
        _ => {
            let ty = type_rs(type_)?;
            let mut s = String::from_str("<");
            s.append(ty.as_str());
            s.append(" as uniffi::ViaFfi>::write(&");
            s.append(nm);
            s.append(", ");
            s.append(target);
            s.append(")");
            assert(s@ =~= write_rs_spec(nm@, target@, *type_));
            Ok(s)
        },
    }
}

/// The Rust expression that reads a value of an interface type out of a
/// byte buffer.
pub open spec fn read_rs_spec(target: Seq<char>, t: Type) -> Seq<char> {
    "<"@ + type_rs_spec(t) + " as uniffi::ViaFfi>::try_read("@ + target + ").unwrap()"@
}

/// Renders the expression reading a value of `type_` out of the byte
/// buffer `target`. Reading is not defined for callback interfaces.
pub fn read_rs(target: &str, type_: &Type) -> (r: Result<String, askama::Error>)
    requires
        !(*type_ matches Type::CallbackInterface(_)),
    ensures
        r matches Ok(s) && s@ == read_rs_spec(target@, *type_),
{
    match type_ {
        Type::CallbackInterface(_) => unreached(),
        _ => {
            let ty = type_rs(type_)?;
            let mut s = String::from_str("<");
            s.append(ty.as_str());
            s.append(" as uniffi::ViaFfi>::try_read(");
            s.append(target);
            s.append(").unwrap()");
            assert(s@ =~= read_rs_spec(target@, *type_));
            Ok(s)
        },
    }
}

} // verus!
