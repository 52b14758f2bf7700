//! The fixture objects and errors, driven through the handle manager the
//! way generated scaffolding drives them.

use uniffi::coverall::{get_num_alive, Color, CoverallError, Coveralls, Patch};
use uniffi::error_types::{
    get_error, oops, poopse, simple, EnumError, ErrorInterface, ErrorThrower, ErrorTrait,
    InternalError,
};
use uniffi::handle::HandleMap;

#[test]
fn coveralls_lifecycle_through_the_registry() {
    let mut registry: HandleMap<Coveralls> = HandleMap::new();
    assert_eq!(get_num_alive(&registry), 0);

    let h = registry.lower(Coveralls::new("cruel".to_string()));
    assert_eq!(get_num_alive(&registry), 1);
    assert_eq!(registry.borrow(h).get_name(), "cruel");

    // A clone of the handle keeps the object alive through one free.
    let h2 = registry.clone_handle(h);
    registry.free(h);
    assert_eq!(get_num_alive(&registry), 1);
    registry.free(h2);
    assert_eq!(get_num_alive(&registry), 0);
}

#[test]
fn coveralls_take_other_holds_a_handle() {
    let mut registry: HandleMap<Coveralls> = HandleMap::new();
    let other = registry.lower(Coveralls::new("other".to_string()));
    let mut main = Coveralls::new("main".to_string());
    assert_eq!(main.get_other(), None);
    main.take_other(Some(other));
    assert_eq!(main.get_other(), Some(other));
    assert_eq!(
        registry.borrow(main.get_other().unwrap()).get_name(),
        "other"
    );
    main.take_other(None);
    assert_eq!(main.get_other(), None);
}

#[test]
fn coveralls_fallible_and_throwing_paths() {
    assert!(matches!(
        Coveralls::fallible_new("words".to_string(), false),
        Ok(c) if c.get_name() == "words"
    ));
    assert!(matches!(
        Coveralls::fallible_new("words".to_string(), true),
        Err(CoverallError::TooManyHoles)
    ));
    let c = Coveralls::new("quiet".to_string());
    assert_eq!(c.maybe_throw(false), Ok(true));
    assert_eq!(c.maybe_throw(true), Err(CoverallError::TooManyHoles));
    assert_eq!(c.take_other_fallible(), Err(CoverallError::TooManyHoles));
}

#[test]
fn coveralls_clone_me_copies_name_and_other() {
    let mut c = Coveralls::new("orig".to_string());
    c.take_other(Some(3));
    let copy = c.clone_me();
    assert_eq!(copy.get_name(), "orig");
    assert_eq!(copy.get_other(), Some(3));
}

#[test]
fn patch_has_its_color() {
    let patch = Patch::new(Color::Red);
    assert_eq!(patch.get_color(), Color::Red);
    assert_eq!(Patch::new(Color::Green).get_color(), Color::Green);
}

#[test]
fn error_interface_chain_and_link() {
    let e = ErrorInterface {
        causes: vec!["outer".to_string(), "middle".to_string(), "inner".to_string()],
    };
    assert_eq!(
        e.chain(),
        vec!["outer".to_string(), "middle".to_string(), "inner".to_string()]
    );
    assert_eq!(e.link(0), Some("outer".to_string()));
    assert_eq!(e.link(2), Some("inner".to_string()));
    assert_eq!(e.link(3), None);
    assert_eq!(e.message(), "outer");
}

#[test]
fn error_functions_fail_as_promised() {
    assert_eq!(simple(), Err(EnumError::Oops));
    assert!(matches!(oops(), Err(e) if e.chain() == vec!["oops".to_string()]));
    assert_eq!(poopse(), Err(InternalError::BadThing1));
    assert_eq!(EnumError::from(InternalError::BadThing1), EnumError::Oops);
    assert_eq!(get_error("boom".to_string()).chain(), vec!["boom".to_string()]);
}

#[test]
fn error_thrower_constructor_and_method() {
    assert!(ErrorThrower::new(true).is_ok());
    assert!(matches!(
        ErrorThrower::new(false),
        Err(e) if e.chain() == vec!["oops".to_string()]
    ));
    let thrower = ErrorThrower::new(true).unwrap();
    assert!(matches!(
        thrower.throw(),
        Err(e) if e.chain() == vec!["threw".to_string()]
    ));
}
