//! The genco-backed pretty-printer path must print the same lines the
//! engine's own text assembly produces.

use honey::binding::Binding;
use honey::block::{ConfigurationBlock, ConfigurationEntry};
use honey::document::Document;
use honey::reference::{Reference, ReferenceList};

fn binding(source_path: &str, name: &str) -> Binding {
    Binding::new(source_path, name).expect("valid binding")
}

fn reference(binding: Option<Binding>, path: &str) -> Reference {
    Reference::new(binding, path).expect("valid reference")
}

#[test]
fn printer_renders_bare_reference() {
    let doc = Document::Reference(reference(None, "cell.nixosModules.foo"));
    let printed = doc.render_with_printer().expect("printer failure");
    assert_eq!(vec!["cell.nixosModules.foo"], printed);
    assert_eq!(doc.render_lines(), printed);
}

#[test]
fn printer_renders_reference_with_prelude() {
    let doc = Document::Reference(reference(
        Some(binding("inputs", "disko")),
        "nixosModules.disko",
    ));
    let printed = doc.render_with_printer().expect("printer failure");
    assert_eq!(
        vec![
            "let",
            "    inherit (inputs) disko;",
            "in",
            "",
            "disko.nixosModules.disko",
        ],
        printed
    );
    assert_eq!(doc.render_lines(), printed);
}

#[test]
fn printer_renders_list() {
    let doc = Document::List(ReferenceList::new(vec![
        reference(None, "a.b"),
        reference(None, "c.d"),
    ]));
    let printed = doc.render_with_printer().expect("printer failure");
    assert_eq!(vec!["[", "    a.b", "    c.d", "]"], printed);
    assert_eq!(doc.render_lines(), printed);
}

#[test]
fn printer_renders_empty_list() {
    let doc = Document::List(ReferenceList::new(vec![]));
    let printed = doc.render_with_printer().expect("printer failure");
    assert_eq!(vec!["[", "]"], printed);
    assert_eq!(doc.render_lines(), printed);
}

#[test]
fn printer_renders_blocks_with_shared_prelude() {
    let host_a = ConfigurationBlock::new(
        "hostA",
        vec![
            ConfigurationEntry::ImportEntry(reference(
                Some(binding("inputs", "disko")),
                "nixosModules.disko",
            )),
            ConfigurationEntry::ImportEntry(reference(None, "cell.diskoConfigurations.myDisko")),
        ],
    )
    .expect("valid block");
    let host_b = ConfigurationBlock::new(
        "hostB",
        vec![ConfigurationEntry::ImportEntry(reference(
            Some(binding("inputs", "disko")),
            "nixosModules.disko",
        ))],
    )
    .expect("valid block");
    let doc = Document::Blocks(vec![host_a, host_b]);
    let printed = doc.render_with_printer().expect("printer failure");
    assert_eq!(
        vec![
            "let",
            "    inherit (inputs) disko;",
            "in",
            "",
            "{",
            "    hostA = {",
            "        imports = [",
            "            disko.nixosModules.disko",
            "            cell.diskoConfigurations.myDisko",
            "        ];",
            "    };",
            "    hostB = {",
            "        imports = [",
            "            disko.nixosModules.disko",
            "        ];",
            "    };",
            "}",
        ],
        printed
    );
    assert_eq!(doc.render_lines(), printed);
}

#[test]
fn printer_renders_block_with_no_entries() {
    let block = ConfigurationBlock::new("emptyHost", vec![]).expect("valid block");
    let doc = Document::Blocks(vec![block]);
    let printed = doc.render_with_printer().expect("printer failure");
    assert_eq!(
        vec![
            "{",
            "    emptyHost = {",
            "        imports = [",
            "        ];",
            "    };",
            "}",
        ],
        printed
    );
    assert_eq!(doc.render_lines(), printed);
}
