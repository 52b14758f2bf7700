//! The binding generators: exact source text for every interface type.

use uniffi::gen_kotlin::{
    decl_c, decl_kt, lift_from_kt, lift_kt, lower_into_kt, lower_kt, lowers_into_size_kt, Config,
    KotlinWrapper,
};
use uniffi::gen_swift::{EnumCodeType, LiteralError};
use uniffi::interface::{ComponentInterface, FFIType, Literal, Type, TypeReference};
use uniffi::scaffolding::{
    lift_rs, lower_rs, make_threadsafe, read_rs, select, type_ffi, type_rs, write_rs,
    RustScaffolding, BINDGEN_VERSION,
};

#[test]
fn type_rs_renders_each_type() {
    assert_eq!(type_rs(&Type::Int8).unwrap(), "i8");
    assert_eq!(type_rs(&Type::UInt64).unwrap(), "u64");
    assert_eq!(type_rs(&Type::Float32).unwrap(), "f32");
    assert_eq!(type_rs(&Type::Boolean).unwrap(), "bool");
    assert_eq!(type_rs(&Type::String).unwrap(), "String");
    assert_eq!(type_rs(&Type::Enum("Color".to_string())).unwrap(), "Color");
    assert_eq!(
        type_rs(&Type::Object("Coveralls".to_string())).unwrap(),
        "std::sync::Arc<Coveralls>"
    );
    assert_eq!(
        type_rs(&Type::CallbackInterface("OnCallAnswered".to_string())).unwrap(),
        "Box<dyn OnCallAnswered>"
    );
    assert_eq!(
        type_rs(&Type::Optional(Box::new(Type::Sequence(Box::new(Type::Int32))))).unwrap(),
        "Option<Vec<i32>>"
    );
    assert_eq!(
        type_rs(&Type::Dictionary(Box::new(Type::String))).unwrap(),
        "std::collections::HashMap<String, String>"
    );
}

#[test]
fn type_ffi_renders_each_type() {
    assert_eq!(type_ffi(&FFIType::Int8).unwrap(), "i8");
    assert_eq!(type_ffi(&FFIType::Float64).unwrap(), "f64");
    assert_eq!(
        type_ffi(&FFIType::RustCString).unwrap(),
        "*mut std::os::raw::c_char"
    );
    assert_eq!(
        type_ffi(&FFIType::RustArcPtr).unwrap(),
        "*const std::os::raw::c_void"
    );
    assert_eq!(type_ffi(&FFIType::RustBuffer).unwrap(), "uniffi::RustBuffer");
    assert_eq!(
        type_ffi(&FFIType::RustError).unwrap(),
        "uniffi::deps::ffi_support::ExternError"
    );
    assert_eq!(
        type_ffi(&FFIType::ForeignCallback).unwrap(),
        "uniffi::ForeignCallback"
    );
}

#[test]
fn make_threadsafe_wraps_objects_in_a_mutex() {
    let t = Type::Object("Counter".to_string());
    assert_eq!(
        make_threadsafe(&t, &false),
        Type::Object("std::sync::Mutex<Counter>".to_string())
    );
    assert_eq!(make_threadsafe(&t, &true), t);
    assert_eq!(make_threadsafe(&Type::String, &false), Type::String);
}

#[test]
fn lower_rs_names_the_lowered_type() {
    assert_eq!(
        lower_rs("value", &Type::UInt32, &true).unwrap(),
        "<u32 as uniffi::ViaFfi>::lower(value)"
    );
    assert_eq!(
        lower_rs("obj", &Type::Object("Counter".to_string()), &false).unwrap(),
        "uniffi::UniffiVoidPtr(<std::sync::Arc<std::sync::Mutex<Counter>> \
         as uniffi::ViaFfi>::lower(obj))"
    );
}

#[test]
fn lift_rs_names_the_lifted_type() {
    assert_eq!(
        lift_rs("value", &Type::String, &true).unwrap(),
        "<String as uniffi::ViaFfi>::try_lift(value).unwrap()"
    );
    assert_eq!(
        lift_rs("cb", &Type::CallbackInterface("OnCallAnswered".to_string()), &true).unwrap(),
        "Box::new(<OnCallAnsweredProxy as uniffi::ViaFfi>::try_lift(cb).unwrap())"
    );
}

#[test]
fn write_and_read_rs_name_the_buffer() {
    assert_eq!(
        write_rs("value", "buf", &Type::Int16).unwrap(),
        "<i16 as uniffi::ViaFfi>::write(&value, buf)"
    );
    assert_eq!(
        read_rs("buf", &Type::Boolean).unwrap(),
        "<bool as uniffi::ViaFfi>::try_read(buf).unwrap()"
    );
}

#[test]
fn select_picks_a_rendering() {
    assert_eq!(select(&true, "yes", "no").unwrap(), "yes");
    assert_eq!(select(&false, "yes", "no").unwrap(), "no");
}

#[test]
fn scaffolding_carries_the_generator_version() {
    let ci = ComponentInterface::new("todolist".to_string());
    let scaffolding = RustScaffolding::new(&ci);
    assert_eq!(scaffolding.uniffi_version, BINDGEN_VERSION);
    assert_eq!(scaffolding.ci.namespace(), "todolist");
}

#[test]
fn kotlin_config_prefixes_the_namespace() {
    let ci = ComponentInterface::new("todolist".to_string());
    let config = Config::from(&ci);
    assert_eq!(config.package_name, "uniffi.todolist");
    let wrapper = KotlinWrapper::new(config, &ci);
    assert_eq!(wrapper.config.package_name, "uniffi.todolist");
}

#[test]
fn decl_kt_renders_declarable_types() {
    assert_eq!(decl_kt(&TypeReference::U32).unwrap(), "Int");
    assert_eq!(decl_kt(&TypeReference::U64).unwrap(), "Long");
    assert_eq!(decl_kt(&TypeReference::Boolean).unwrap(), "Boolean");
    assert_eq!(decl_kt(&TypeReference::Bytes).unwrap(), "RustBuffer.ByValue");
    assert_eq!(
        decl_kt(&TypeReference::Record("TodoEntry".to_string())).unwrap(),
        "TodoEntry"
    );
    assert_eq!(
        decl_kt(&TypeReference::Optional(Box::new(TypeReference::Boolean))).unwrap(),
        "Boolean?"
    );
    assert_eq!(
        decl_kt(&TypeReference::Optional(Box::new(TypeReference::Optional(Box::new(
            TypeReference::U32
        )))))
        .unwrap(),
        "Int??"
    );
}

#[test]
fn decl_c_renders_boundary_types() {
    assert_eq!(decl_c(&TypeReference::Boolean).unwrap(), "Byte");
    assert_eq!(
        decl_c(&TypeReference::Enum("Color".to_string())).unwrap(),
        "Int"
    );
    assert_eq!(
        decl_c(&TypeReference::Record("TodoEntry".to_string())).unwrap(),
        "RustBuffer.ByValue"
    );
    assert_eq!(
        decl_c(&TypeReference::Optional(Box::new(TypeReference::U32))).unwrap(),
        "RustBuffer.ByValue"
    );
    assert_eq!(
        decl_c(&TypeReference::Object("Telephone".to_string())).unwrap(),
        "Long"
    );
    assert_eq!(decl_c(&TypeReference::Double).unwrap(), "Double");
}

#[test]
fn kotlin_lowering_expressions() {
    assert_eq!(
        lower_kt("value", &TypeReference::U32).unwrap(),
        "(value as Int).lower()"
    );
    assert_eq!(
        lower_into_kt("value", "buf", &TypeReference::Boolean).unwrap(),
        "(value as Boolean).lowerInto(buf)"
    );
    assert_eq!(
        lowers_into_size_kt("(this.text)", &TypeReference::Record("TodoEntry".to_string()))
            .unwrap(),
        "((this.text) as TodoEntry).lowersIntoSize()"
    );
}

#[test]
fn kotlin_lifting_expressions() {
    assert_eq!(
        lift_kt("_retval", &TypeReference::U64).unwrap(),
        "Long.lift(_retval)"
    );
    assert_eq!(
        lift_from_kt("buf", &TypeReference::Boolean).unwrap(),
        "Boolean.liftFrom(buf)"
    );
    assert_eq!(
        lift_kt("_retval", &TypeReference::Optional(Box::new(TypeReference::U32))).unwrap(),
        "liftOptional(_retval, { buf -> Int.liftFrom(buf) })"
    );
    assert_eq!(
        lift_from_kt(
            "buf",
            &TypeReference::Optional(Box::new(TypeReference::Optional(Box::new(
                TypeReference::Boolean
            ))))
        )
        .unwrap(),
        "liftFromOptional(buf, { buf -> liftFromOptional(buf, { buf -> Boolean.liftFrom(buf) }) })"
    );
}

#[test]
fn swift_enum_code_type() {
    let code_type = EnumCodeType::new("Color".to_string());
    assert_eq!(code_type.type_label(), "Color");
    assert_eq!(code_type.canonical_name(), "TypeColor");
    assert_eq!(
        code_type
            .literal(&Literal::Enum("red".to_string(), Type::Enum("Color".to_string())))
            .unwrap(),
        ".red"
    );
    assert_eq!(
        code_type.literal(&Literal::Boolean(true)),
        Err(LiteralError::InvalidLiteral)
    );
}
