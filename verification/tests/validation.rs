//! Construction-time validation of the object model.

use honey::binding::{Binding, BuildError};
use honey::block::ConfigurationBlock;
use honey::reference::Reference;

#[test]
fn binding_rejects_empty_source_path() {
    assert_eq!(Err(BuildError::InvalidBinding), Binding::new("", "disko").map(|_| ()));
}

#[test]
fn binding_rejects_empty_name() {
    assert_eq!(Err(BuildError::InvalidBinding), Binding::new("inputs", "").map(|_| ()));
}

#[test]
fn binding_accepts_non_empty_fields() {
    let b = Binding::new("inputs", "disko").expect("valid binding");
    assert_eq!("inputs", b.source_path());
    assert_eq!("disko", b.name());
    assert_eq!("disko", b.render());
    assert_eq!("inherit (inputs) disko;", b.prelude_line());
}

#[test]
fn reference_rejects_empty_path() {
    assert_eq!(
        Err(BuildError::InvalidReference),
        Reference::new(None, "").map(|_| ())
    );
}

#[test]
fn reference_renders_with_and_without_binding() {
    let bare = Reference::new(None, "cell.nixosModules.foo").expect("valid reference");
    assert_eq!("cell.nixosModules.foo", bare.render());
    let b = Binding::new("inputs", "disko").expect("valid binding");
    let bound = Reference::new(Some(b), "nixosModules.disko").expect("valid reference");
    assert_eq!("disko.nixosModules.disko", bound.render());
}

#[test]
fn block_rejects_empty_name() {
    assert_eq!(
        Err(BuildError::InvalidBlockName),
        ConfigurationBlock::new("", vec![]).map(|_| ())
    );
}

#[test]
fn binding_identity_is_the_whole_pair() {
    let a = Binding::new("inputs", "disko").expect("valid binding");
    let b = Binding::new("inputs", "disko").expect("valid binding");
    let c = Binding::new("other", "disko").expect("valid binding");
    let d = Binding::new("inputs", "nixpkgs").expect("valid binding");
    assert!(a.same_identity(&b));
    assert!(!a.same_identity(&c));
    assert!(!a.same_identity(&d));
}
