//! End-to-end rendering scenarios for the emission engine.

use honey::binding::Binding;
use honey::block::{ConfigurationBlock, ConfigurationEntry};
use honey::document::{render_configurations, Document};
use honey::reference::{Reference, ReferenceList};

fn binding(source_path: &str, name: &str) -> Binding {
    Binding::new(source_path, name).expect("valid binding")
}

fn reference(binding: Option<Binding>, path: &str) -> Reference {
    Reference::new(binding, path).expect("valid reference")
}

#[test]
fn reference_without_binding_renders_bare_path() {
    let r = reference(None, "cell.nixosModules.foo");
    let doc = Document::Reference(r);
    assert_eq!("cell.nixosModules.foo", doc.render());
    assert_eq!(vec!["cell.nixosModules.foo".to_string()], doc.render_lines());
}

#[test]
fn reference_with_binding_renders_hoisted_prelude() {
    let r = reference(Some(binding("inputs", "disko")), "nixosModules.disko");
    let doc = Document::Reference(r);
    assert_eq!(
        vec![
            "let",
            "    inherit (inputs) disko;",
            "in",
            "",
            "disko.nixosModules.disko",
        ],
        doc.render_lines()
    );
    assert_eq!(
        "let\n    inherit (inputs) disko;\nin\n\ndisko.nixosModules.disko",
        doc.render()
    );
}

#[test]
fn list_renders_one_reference_per_line_in_order() {
    let list = ReferenceList::new(vec![
        reference(None, "a.b"),
        reference(None, "c.d"),
    ]);
    let doc = Document::List(list);
    assert_eq!(vec!["[", "    a.b", "    c.d", "]"], doc.render_lines());
    assert_eq!("[\n    a.b\n    c.d\n]", doc.render());
}

#[test]
fn empty_list_renders_bare_brackets() {
    let doc = Document::List(ReferenceList::new(vec![]));
    assert_eq!(vec!["[", "]"], doc.render_lines());
    assert_eq!("[\n]", doc.render());
}

#[test]
fn block_renders_attribute_set_with_hoisted_prelude() {
    let entries = vec![
        ConfigurationEntry::ImportEntry(reference(
            Some(binding("inputs", "disko")),
            "nixosModules.disko",
        )),
        ConfigurationEntry::ImportEntry(reference(None, "cell.diskoConfigurations.myDisko")),
    ];
    let block = ConfigurationBlock::new("myHost", entries).expect("valid block");
    let doc = Document::Blocks(vec![block]);
    assert_eq!(
        vec![
            "let",
            "    inherit (inputs) disko;",
            "in",
            "",
            "{",
            "    myHost = {",
            "        imports = [",
            "            disko.nixosModules.disko",
            "            cell.diskoConfigurations.myDisko",
            "        ];",
            "    };",
            "}",
        ],
        doc.render_lines()
    );
}

#[test]
fn sibling_blocks_share_one_prelude_line() {
    let host_a = ConfigurationBlock::new(
        "hostA",
        vec![ConfigurationEntry::ImportEntry(reference(
            Some(binding("inputs", "disko")),
            "nixosModules.disko",
        ))],
    )
    .expect("valid block");
    let host_b = ConfigurationBlock::new(
        "hostB",
        vec![ConfigurationEntry::ImportEntry(reference(
            Some(binding("inputs", "disko")),
            "nixosModules.disko",
        ))],
    )
    .expect("valid block");
    let doc = Document::Blocks(vec![host_a, host_b]);
    let lines = doc.render_lines();
    let inherit_count = lines
        .iter()
        .filter(|l| l.as_str() == "    inherit (inputs) disko;")
        .count();
    assert_eq!(1, inherit_count);
    assert_eq!(
        vec![
            "let",
            "    inherit (inputs) disko;",
            "in",
            "",
            "{",
            "    hostA = {",
            "        imports = [",
            "            disko.nixosModules.disko",
            "        ];",
            "    };",
            "    hostB = {",
            "        imports = [",
            "            disko.nixosModules.disko",
            "        ];",
            "    };",
            "}",
        ],
        lines
    );
}

#[test]
fn rendering_twice_yields_identical_text() {
    let list = ReferenceList::new(vec![
        reference(Some(binding("inputs", "disko")), "nixosModules.disko"),
        reference(None, "cell.nixosProfiles.base"),
    ]);
    let doc = Document::List(list);
    assert_eq!(doc.render(), doc.render());
    assert_eq!(doc.render_lines(), doc.render_lines());
}

#[test]
fn duplicate_identities_collapse_to_one_prelude_line() {
    let list = ReferenceList::new(vec![
        reference(Some(binding("inputs", "disko")), "one"),
        reference(Some(binding("inputs", "disko")), "two"),
        reference(Some(binding("inputs", "disko")), "three"),
    ]);
    let doc = Document::List(list);
    let lines = doc.render_lines();
    let inherit_count = lines
        .iter()
        .filter(|l| l.contains("inherit"))
        .count();
    assert_eq!(1, inherit_count);
    assert_eq!(
        vec![
            "let",
            "    inherit (inputs) disko;",
            "in",
            "",
            "[",
            "    disko.one",
            "    disko.two",
            "    disko.three",
            "]",
        ],
        lines
    );
}

#[test]
fn distinct_bindings_hoist_in_first_occurrence_order() {
    let list = ReferenceList::new(vec![
        reference(Some(binding("inputs", "home-manager")), "nixosModules.home-manager"),
        reference(Some(binding("inputs", "disko")), "nixosModules.disko"),
        reference(Some(binding("inputs", "home-manager")), "nixosModules.again"),
    ]);
    let doc = Document::List(list);
    assert_eq!(
        vec![
            "let",
            "    inherit (inputs) home-manager;",
            "    inherit (inputs) disko;",
            "in",
            "",
            "[",
            "    home-manager.nixosModules.home-manager",
            "    disko.nixosModules.disko",
            "    home-manager.nixosModules.again",
            "]",
        ],
        doc.render_lines()
    );
}

#[test]
fn required_bindings_deduplicate_and_keep_order() {
    let list = ReferenceList::new(vec![
        reference(Some(binding("inputs", "b")), "x"),
        reference(Some(binding("inputs", "a")), "y"),
        reference(None, "z"),
        reference(Some(binding("inputs", "b")), "w"),
        reference(Some(binding("other", "b")), "v"),
    ]);
    let doc = Document::List(list);
    let req = doc.required_bindings();
    let pairs: Vec<(String, String)> = req
        .iter()
        .map(|b| (b.source_path().to_string(), b.name().to_string()))
        .collect();
    assert_eq!(
        vec![
            ("inputs".to_string(), "b".to_string()),
            ("inputs".to_string(), "a".to_string()),
            ("other".to_string(), "b".to_string()),
        ],
        pairs
    );
}

#[test]
fn configurations_set_renders_imports_with_prelude() {
    let list = ReferenceList::new(vec![
        reference(Some(binding("inputs", "disko")), "nixosModules.disko"),
        reference(None, "cell.diskoConfigurations.my-disko-configurations"),
    ]);
    assert_eq!(
        vec![
            "let",
            "    inherit (inputs) disko;",
            "in",
            "",
            "{",
            "    imports = [",
            "        disko.nixosModules.disko",
            "        cell.diskoConfigurations.my-disko-configurations",
            "    ];",
            "}",
        ],
        render_configurations(&list)
    );
}

#[test]
fn configurations_set_without_bindings_has_no_prelude() {
    let list = ReferenceList::new(vec![reference(None, "cell.nixosProfiles.base")]);
    assert_eq!(
        vec!["{", "    imports = [", "        cell.nixosProfiles.base", "    ];", "}"],
        render_configurations(&list)
    );
}

#[test]
fn component_required_bindings_are_deduplicated() {
    let r = reference(Some(binding("inputs", "disko")), "one");
    assert_eq!(1, r.required_bindings().len());
    assert_eq!(0, reference(None, "two").required_bindings().len());

    let list = ReferenceList::new(vec![
        reference(Some(binding("inputs", "disko")), "one"),
        reference(Some(binding("inputs", "disko")), "two"),
    ]);
    let req = list.required_bindings();
    assert_eq!(1, req.len());
    assert_eq!("disko", req[0].name());

    let block = ConfigurationBlock::new(
        "host",
        vec![
            ConfigurationEntry::ImportEntry(reference(
                Some(binding("inputs", "home-manager")),
                "homeModules.base",
            )),
            ConfigurationEntry::ImportEntry(reference(
                Some(binding("inputs", "disko")),
                "nixosModules.disko",
            )),
            ConfigurationEntry::ImportEntry(reference(
                Some(binding("inputs", "home-manager")),
                "homeModules.extra",
            )),
        ],
    )
    .expect("valid block");
    let req = block.required_bindings();
    assert_eq!(2, req.len());
    assert_eq!("home-manager", req[0].name());
    assert_eq!("disko", req[1].name());
}

#[test]
fn block_with_no_bindings_has_no_prelude() {
    let block = ConfigurationBlock::new(
        "plainHost",
        vec![ConfigurationEntry::ImportEntry(reference(
            None,
            "cell.nixosProfiles.base",
        ))],
    )
    .expect("valid block");
    let doc = Document::Blocks(vec![block]);
    assert_eq!(
        vec![
            "{",
            "    plainHost = {",
            "        imports = [",
            "            cell.nixosProfiles.base",
            "        ];",
            "    };",
            "}",
        ],
        doc.render_lines()
    );
}
