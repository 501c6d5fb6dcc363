//! Configuration blocks: named attribute-set entries built from a list of
//! typed configuration entries.

use vstd::prelude::*;
use vstd::string::StringExecFns;
use crate::binding::{Binding, BindingView, BuildError};
use crate::dedup::{dedup_bindings, dedup_vec};
use crate::lines::{Line, LineView};
use crate::reference::{ref_text, refs_bindings, Reference, ReferenceView};

verus! {

/// One item inside a configuration block's body.  A closed tagged
/// variant: future entry kinds (say, literal key/value pairs) are new
/// variants with their own render case, and must not disturb the
/// emission contract.
pub enum ConfigurationEntry {
    /// A module import, rendered into the block's `imports` list.
    ImportEntry(Reference),
}

/// Mathematical model of a [`ConfigurationEntry`].
pub enum EntryView {
    ImportEntry(ReferenceView),
}

impl View for ConfigurationEntry {
    type V = EntryView;

    open spec fn view(&self) -> EntryView {
        match self {
            ConfigurationEntry::ImportEntry(r) => EntryView::ImportEntry(r@),
        }
    }
}

impl EntryView {
    /// An entry is well formed when its reference is.
    pub open spec fn wf(self) -> bool {
        match self {
            EntryView::ImportEntry(r) => r.wf(),
        }
    }
}

/// The reference an import entry carries.
pub open spec fn entry_import(e: EntryView) -> ReferenceView {
    match e {
        EntryView::ImportEntry(r) => r,
    }
}

/// The references of all import entries, in declaration order.  With
/// only the import variant this keeps every entry; future entry kinds
/// would drop out here.
pub open spec fn imports_of(es: Seq<EntryView>) -> Seq<ReferenceView> {
    es.map_values(|e: EntryView| entry_import(e))
}

/// Mathematical model of a [`ConfigurationBlock`].
pub struct BlockView {
    pub name: Seq<char>,
    pub entries: Seq<EntryView>,
}

impl BlockView {
    /// A block is well formed when its name is non-empty and every entry is
    /// well formed.
    pub open spec fn wf(self) -> bool {
        self.name.len() > 0 && forall|i: int| 0 <= i < self.entries.len() ==> (
        #[trigger] self.entries[i]).wf()
    }
}

/// The bindings a block requires, in declaration order, duplicates kept.
pub open spec fn block_bindings(b: BlockView) -> Seq<BindingView> {
    refs_bindings(imports_of(b.entries))
}

/// The body lines of one block at depth `d`:
/// `<name> = {` / `imports = [` / one import per line / `];` / `};`.
pub open spec fn block_lines(b: BlockView, d: int) -> Seq<LineView> {
    seq![
        LineView { depth: d, text: b.name + " = {"@ },
        LineView { depth: d + 1, text: "imports = ["@ },
    ] + Seq::new(
        b.entries.len(),
        |i: int| LineView { depth: d + 2, text: ref_text(entry_import(b.entries[i])) },
    ) + seq![LineView { depth: d + 1, text: "];"@ }, LineView { depth: d, text: "};"@ }]
}

/// A named attribute-set entry whose body is built from typed
/// configuration entries.
pub struct ConfigurationBlock {
    name: String,
    entries: Vec<ConfigurationEntry>,
}

impl View for ConfigurationBlock {
    type V = BlockView;

    closed spec fn view(&self) -> BlockView {
        BlockView {
            name: self.name@,
            entries: self.entries@.map_values(|e: ConfigurationEntry| e@),
        }
    }
}

impl ConfigurationBlock {
    /// Builds a block, rejecting an empty name.
    pub fn new(name: &str, entries: Vec<ConfigurationEntry>) -> (r: Result<
        ConfigurationBlock,
        BuildError,
    >)
        ensures
            match r {
                Ok(b) => b@ == (BlockView {
                    name: name@,
                    entries: entries@.map_values(|e: ConfigurationEntry| e@),
                }) && name@.len() > 0,
                Err(e) => e == BuildError::InvalidBlockName && name@.len() == 0,
            },
    {
        if name.is_empty() {
            Err(BuildError::InvalidBlockName)
        } else {
            Ok(ConfigurationBlock { name: String::from_str(name), entries })
        }
    }

    /// The block's attribute name.
    pub fn name(&self) -> (r: &str)
        ensures
            r@ == self@.name,
    {
        self.name.as_str()
    }

    /// How many entries the block holds.
    pub fn entry_count(&self) -> (r: usize)
        ensures
            r == self@.entries.len(),
    {
        self.entries.len()
    }

    /// The entry at one position.
    pub fn entry(&self, i: usize) -> (r: &ConfigurationEntry)
        requires
            i < self@.entries.len(),
        ensures
            r@ == self@.entries[i as int],
    {
        &self.entries[i]
    }

    /// The ordered, deduplicated union of the bindings its entries
    /// require, each identity at its first occurrence in declaration
    /// order.
    pub fn required_bindings(&self) -> (r: Vec<Binding>)
        ensures
            r@.map_values(|b: Binding| b@) == dedup_bindings(block_bindings(self@)),
    {
        let mut acc: Vec<Binding> = Vec::new();
        proof {
            assert(acc@.map_values(|b: Binding| b@) =~= Seq::<BindingView>::empty());
        }
        self.collect_bindings(&mut acc);
        proof {
            assert(Seq::<BindingView>::empty() + block_bindings(self@) =~= block_bindings(
                self@,
            ));
        }
        dedup_vec(&acc)
    }

    /// Appends the bindings of every entry, in declaration order, to an
    /// accumulator; duplicates are kept for the engine to merge.
    pub fn collect_bindings(&self, acc: &mut Vec<Binding>)
        ensures
            final(acc)@.map_values(|b: Binding| b@) == old(acc)@.map_values(|b: Binding| b@)
                + block_bindings(self@),
    {
        let ghost prev = acc@.map_values(|b: Binding| b@);
        let ghost imports = imports_of(self@.entries);
        let mut i: usize = 0;
        proof {
            assert(prev + refs_bindings(imports.take(0)) =~= prev);
        }
        while i < self.entries.len()
            invariant
                i <= self.entries.len(),
                prev == old(acc)@.map_values(|b: Binding| b@),
                imports == imports_of(self@.entries),
                acc@.map_values(|b: Binding| b@) == prev + refs_bindings(imports.take(i as int)),
            decreases self.entries.len() - i,
        {
            match &self.entries[i] {
                ConfigurationEntry::ImportEntry(r) => {
                    r.collect_bindings(acc);
                    proof {
                        assert(self@.entries[i as int] == self.entries@[i as int]@);
                        assert(imports[i as int] == r@);
                        assert(imports.take(i + 1).drop_last() =~= imports.take(i as int));
                        assert(prev + refs_bindings(imports.take(i as int)) + crate::reference::ref_bindings(
                            r@,
                        ) =~= prev + refs_bindings(imports.take(i + 1)));
                    }
                },
            }
            i = i + 1;
        }
        proof {
            assert(imports.take(imports.len() as int) =~= imports);
        }
    }

    /// Renders the block's body lines at depth `d`.
    pub fn body_lines(&self, d: usize) -> (r: Vec<Line>)
        requires
            d + 2 <= usize::MAX,
        ensures
            r@.map_values(|l: Line| l@) == block_lines(self@, d as int),
    {
        let ghost imports = imports_of(self@.entries);
        let mut r: Vec<Line> = Vec::new();
        let mut head = String::from_str(self.name.as_str());
        head.append(" = {");
        r.push(Line { depth: d, text: head });
        r.push(Line { depth: d + 1, text: String::from_str("imports = [") });
        let ghost open_part = seq![
            LineView { depth: d as int, text: self@.name + " = {"@ },
            LineView { depth: d + 1, text: "imports = ["@ },
        ];
        proof {
            assert(r@.map_values(|l: Line| l@) =~= open_part + Seq::new(
                0,
                |j: int| LineView { depth: d + 2, text: ref_text(entry_import(self@.entries[j])) },
            ));
        }
        let mut i: usize = 0;
        while i < self.entries.len()
            invariant
                i <= self.entries.len(),
                d + 2 <= usize::MAX,
                open_part == seq![
                    LineView { depth: d as int, text: self@.name + " = {"@ },
                    LineView { depth: d + 1, text: "imports = ["@ },
                ],
                r@.map_values(|l: Line| l@) == open_part + Seq::new(
                    i as nat,
                    |j: int| LineView {
                        depth: d + 2,
                        text: ref_text(entry_import(self@.entries[j])),
                    },
                ),
            decreases self.entries.len() - i,
        {
            let ghost prev = r@.map_values(|l: Line| l@);
            match &self.entries[i] {
                ConfigurationEntry::ImportEntry(rf) => {
                    let t = rf.render();
                    r.push(Line { depth: d + 2, text: t });
                    proof {
                        assert(self@.entries[i as int] == self.entries@[i as int]@);
                        assert(entry_import(self@.entries[i as int]) == rf@);
                        assert(r@.map_values(|l: Line| l@) =~= prev.push(
                            LineView { depth: d + 2, text: ref_text(rf@) },
                        ));
                        assert(prev.push(LineView { depth: d + 2, text: ref_text(rf@) })
                            =~= open_part + Seq::new(
                            (i + 1) as nat,
                            |j: int| LineView {
                                depth: d + 2,
                                text: ref_text(entry_import(self@.entries[j])),
                            },
                        ));
                    }
                },
            }
            i = i + 1;
        }
        let ghost prev = r@.map_values(|l: Line| l@);
        r.push(Line { depth: d + 1, text: String::from_str("];") });
        r.push(Line { depth: d, text: String::from_str("};") });
        proof {
            assert(r@.map_values(|l: Line| l@) =~= prev.push(
                LineView { depth: d + 1, text: "];"@ },
            ).push(LineView { depth: d as int, text: "};"@ }));
            assert(prev.push(LineView { depth: d + 1, text: "];"@ }).push(
                LineView { depth: d as int, text: "};"@ },
            ) =~= block_lines(self@, d as int));
        }
        r
    }
}

} // verus!
