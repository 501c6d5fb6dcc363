//! The preset catalog of well-known bindings and cell references.

use honey::binding::Binding;
use honey::document::Document;
use honey::reference::{Reference, ReferenceList};

#[test]
fn disko_binding_preset() {
    let b = Binding::disko();
    assert_eq!("inputs", b.source_path());
    assert_eq!("disko", b.name());
    assert_eq!("inherit (inputs) disko;", b.prelude_line());
}

#[test]
fn nixpkgs_binding_preset() {
    let b = Binding::nixpkgs();
    assert_eq!("inherit (inputs) nixpkgs;", b.prelude_line());
    assert_eq!("nixpkgs", b.render());
}

#[test]
fn home_manager_binding_preset() {
    let b = Binding::home_manager();
    assert_eq!("inherit (inputs) home-manager;", b.prelude_line());
}

#[test]
fn disko_reference_preset_renders_with_prelude() {
    let doc = Document::Reference(Reference::disko());
    assert_eq!(
        vec![
            "let",
            "    inherit (inputs) disko;",
            "in",
            "",
            "disko.nixosModules.disko",
        ],
        doc.render_lines()
    );
}

#[test]
fn cell_reference_presets_build_dotted_paths() {
    assert_eq!(
        "cell.nixosConfigurations.myHost",
        Reference::nixos_configurations("myHost").render()
    );
    assert_eq!(
        "cell.nixosProfiles.my-nix-profile",
        Reference::nixos_profiles("my-nix-profile").render()
    );
    assert_eq!("cell.nixosModules.net", Reference::nixos_modules("net").render());
    assert_eq!(
        "cell.homeConfigurations.my-home",
        Reference::home_configurations("my-home").render()
    );
    assert_eq!("cell.homeProfiles.shell", Reference::home_profiles("shell").render());
    assert_eq!("cell.homeModules.editor", Reference::home_modules("editor").render());
    assert_eq!(
        "cell.hardwareProfiles.my-hardware-profile",
        Reference::hardware_profiles("my-hardware-profile").render()
    );
    assert_eq!(
        "cell.diskoConfigurations.my-disko-configurations",
        Reference::disko_configurations("my-disko-configurations").render()
    );
}

#[test]
fn preset_list_renders_like_hand_built_references() {
    let list = ReferenceList::new(vec![
        Reference::hardware_profiles("my-hardware-profile"),
        Reference::nixos_profiles("my-nix-profile"),
    ]);
    let doc = Document::List(list);
    assert_eq!(
        vec![
            "[",
            "    cell.hardwareProfiles.my-hardware-profile",
            "    cell.nixosProfiles.my-nix-profile",
            "]",
        ],
        doc.render_lines()
    );
}

#[test]
fn preset_list_with_binding_hoists_prelude() {
    let list = ReferenceList::new(vec![
        Reference::disko(),
        Reference::disko_configurations("my-disko-configurations"),
    ]);
    let doc = Document::List(list);
    assert_eq!(
        vec![
            "let",
            "    inherit (inputs) disko;",
            "in",
            "",
            "[",
            "    disko.nixosModules.disko",
            "    cell.diskoConfigurations.my-disko-configurations",
            "]",
        ],
        doc.render_lines()
    );
}
