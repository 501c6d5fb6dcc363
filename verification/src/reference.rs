//! References: dotted-path expressions optionally rooted at a binding,
//! and ordered lists of them.

use vstd::prelude::*;
use vstd::string::StringExecFns;
use crate::binding::{Binding, BindingView, BuildError};
use crate::dedup::{dedup_bindings, dedup_vec};
use crate::lines::{Line, LineView};

verus! {

/// Mathematical model of a [`Reference`].
pub struct ReferenceView {
    pub binding: Option<BindingView>,
    pub path: Seq<char>,
}

impl ReferenceView {
    /// A reference is well formed when its path is non-empty and its
    /// binding, if any, is well formed.
    pub open spec fn wf(self) -> bool {
        self.path.len() > 0 && match self.binding {
            Some(b) => b.wf(),
            None => true,
        }
    }
}

/// The single body fragment a reference renders to: `<name>.<path>` when
/// it owns a binding, the bare path otherwise.
pub open spec fn ref_text(r: ReferenceView) -> Seq<char> {
    match r.binding {
        Some(b) => b.name + "."@ + r.path,
        None => r.path,
    }
}

/// The bindings one reference contributes to the required set: none or
/// exactly its own.
pub open spec fn ref_bindings(r: ReferenceView) -> Seq<BindingView> {
    match r.binding {
        Some(b) => seq![b],
        None => Seq::empty(),
    }
}

/// The bindings a sequence of references contributes, in scan order,
/// duplicates kept.
pub open spec fn refs_bindings(rs: Seq<ReferenceView>) -> Seq<BindingView>
    decreases rs.len(),
{
    if rs.len() == 0 {
        Seq::empty()
    } else {
        refs_bindings(rs.drop_last()) + ref_bindings(rs.last())
    }
}

/// The body lines of a bracketed reference list at depth `d`: the open
/// bracket, one reference per line one level deeper, in input order, and
/// the close bracket.
pub open spec fn list_lines(rs: Seq<ReferenceView>, d: int) -> Seq<LineView> {
    seq![LineView { depth: d, text: "["@ }] + Seq::new(
        rs.len(),
        |i: int| LineView { depth: d + 1, text: ref_text(rs[i]) },
    ) + seq![LineView { depth: d, text: "]"@ }]
}

/// A dotted-path expression that may depend on exactly one binding.
pub struct Reference {
    binding: Option<Binding>,
    path: String,
}

impl View for Reference {
    type V = ReferenceView;

    closed spec fn view(&self) -> ReferenceView {
        ReferenceView {
            binding: match self.binding {
                Some(b) => Some(b@),
                None => None,
            },
            path: self.path@,
        }
    }
}

impl Reference {
    /// Builds a reference, rejecting an empty dotted path.  The binding,
    /// if any, was already validated by its own constructor.
    pub fn new(binding: Option<Binding>, path: &str) -> (r: Result<Reference, BuildError>)
        ensures
            match r {
                Ok(rf) => rf@ == (ReferenceView {
                    binding: match binding {
                        Some(b) => Some(b@),
                        None => None,
                    },
                    path: path@,
                }) && path@.len() > 0,
                Err(e) => e == BuildError::InvalidReference && path@.len() == 0,
            },
    {
        if path.is_empty() {
            Err(BuildError::InvalidReference)
        } else {
            Ok(Reference { binding, path: String::from_str(path) })
        }
    }

    /// The binding this reference depends on, if any.
    pub fn binding(&self) -> (r: Option<&Binding>)
        ensures
            match r {
                Some(b) => self@.binding == Some(b@),
                None => self@.binding is None,
            },
    {
        match &self.binding {
            Some(b) => Some(b),
            None => None,
        }
    }

    /// The dotted access path.
    pub fn path(&self) -> (r: &str)
        ensures
            r@ == self@.path,
    {
        self.path.as_str()
    }

    /// Renders the reference's single body fragment.
    pub fn render(&self) -> (r: String)
        ensures
            r@ == ref_text(self@),
    {
        match &self.binding {
            Some(b) => {
                let mut s = String::from_str(b.name());
                s.append(".");
                s.append(self.path.as_str());
                s
            },
            None => self.path.clone(),
        }
    }

    /// Preset: imports `nixosModules.disko` through the `disko` binding.
    pub fn disko() -> (r: Reference)
        ensures
            r@ == (ReferenceView {
                binding: Some(BindingView { source_path: "inputs"@, name: "disko"@ }),
                path: "nixosModules.disko"@,
            }),
            r@.wf(),
    {
        proof {
            reveal_strlit("nixosModules.disko");
        }
        Reference {
            binding: Some(Binding::disko()),
            path: String::from_str("nixosModules.disko"),
        }
    }

    /// Builds a binding-free reference to a well-known cell path:
    /// `<prefix><name>`.
    fn cell_preset(prefix: &str, name: &str) -> (r: Reference)
        ensures
            r@ == (ReferenceView { binding: None, path: prefix@ + name@ }),
    {
        let mut p = String::from_str(prefix);
        p.append(name);
        Reference { binding: None, path: p }
    }

    /// Preset: a reference into the cell's `nixosConfigurations`.
    pub fn nixos_configurations(name: &str) -> (r: Reference)
        ensures
            r@ == (ReferenceView { binding: None, path: "cell.nixosConfigurations."@ + name@ }),
            r@.wf(),
    {
        proof {
            reveal_strlit("cell.nixosConfigurations.");
        }
        Self::cell_preset("cell.nixosConfigurations.", name)
    }

    /// Preset: a reference into the cell's `nixosProfiles`.
    pub fn nixos_profiles(name: &str) -> (r: Reference)
        ensures
            r@ == (ReferenceView { binding: None, path: "cell.nixosProfiles."@ + name@ }),
            r@.wf(),
    {
        proof {
            reveal_strlit("cell.nixosProfiles.");
        }
        Self::cell_preset("cell.nixosProfiles.", name)
    }

    /// Preset: a reference into the cell's `nixosModules`.
    pub fn nixos_modules(name: &str) -> (r: Reference)
        ensures
            r@ == (ReferenceView { binding: None, path: "cell.nixosModules."@ + name@ }),
            r@.wf(),
    {
        proof {
            reveal_strlit("cell.nixosModules.");
        }
        Self::cell_preset("cell.nixosModules.", name)
    }

    /// Preset: a reference into the cell's `homeConfigurations`.
    pub fn home_configurations(name: &str) -> (r: Reference)
        ensures
            r@ == (ReferenceView { binding: None, path: "cell.homeConfigurations."@ + name@ }),
            r@.wf(),
    {
        proof {
            reveal_strlit("cell.homeConfigurations.");
        }
        Self::cell_preset("cell.homeConfigurations.", name)
    }

    /// Preset: a reference into the cell's `homeProfiles`.
    pub fn home_profiles(name: &str) -> (r: Reference)
        ensures
            r@ == (ReferenceView { binding: None, path: "cell.homeProfiles."@ + name@ }),
            r@.wf(),
    {
        proof {
            reveal_strlit("cell.homeProfiles.");
        }
        Self::cell_preset("cell.homeProfiles.", name)
    }

    /// Preset: a reference into the cell's `homeModules`.
    pub fn home_modules(name: &str) -> (r: Reference)
        ensures
            r@ == (ReferenceView { binding: None, path: "cell.homeModules."@ + name@ }),
            r@.wf(),
    {
        proof {
            reveal_strlit("cell.homeModules.");
        }
        Self::cell_preset("cell.homeModules.", name)
    }

    /// Preset: a reference into the cell's `hardwareProfiles`.
    pub fn hardware_profiles(name: &str) -> (r: Reference)
        ensures
            r@ == (ReferenceView { binding: None, path: "cell.hardwareProfiles."@ + name@ }),
            r@.wf(),
    {
        proof {
            reveal_strlit("cell.hardwareProfiles.");
        }
        Self::cell_preset("cell.hardwareProfiles.", name)
    }

    /// Preset: a reference into the cell's `diskoConfigurations`.
    pub fn disko_configurations(name: &str) -> (r: Reference)
        ensures
            r@ == (ReferenceView { binding: None, path: "cell.diskoConfigurations."@ + name@ }),
            r@.wf(),
    {
        proof {
            reveal_strlit("cell.diskoConfigurations.");
        }
        Self::cell_preset("cell.diskoConfigurations.", name)
    }

    /// The ordered set of bindings this reference requires: empty, or
    /// exactly its own binding.
    pub fn required_bindings(&self) -> (r: Vec<Binding>)
        ensures
            r@.map_values(|b: Binding| b@) == ref_bindings(self@),
    {
        let mut acc: Vec<Binding> = Vec::new();
        proof {
            assert(acc@.map_values(|b: Binding| b@) =~= Seq::<BindingView>::empty());
        }
        self.collect_bindings(&mut acc);
        proof {
            assert(Seq::<BindingView>::empty() + ref_bindings(self@) =~= ref_bindings(self@));
        }
        acc
    }

    /// Appends the bindings this reference requires to an accumulator.
    pub fn collect_bindings(&self, acc: &mut Vec<Binding>)
        ensures
            final(acc)@.map_values(|b: Binding| b@) == old(acc)@.map_values(|b: Binding| b@)
                + ref_bindings(self@),
    {
        let ghost prev = acc@;
        match &self.binding {
            Some(b) => {
                acc.push(b.clone());
                proof {
                    assert(acc@.map_values(|b: Binding| b@) =~= prev.map_values(|b: Binding| b@)
                        + ref_bindings(self@));
                }
            },
            None => {
                proof {
                    assert(acc@.map_values(|b: Binding| b@) =~= prev.map_values(|b: Binding| b@)
                        + ref_bindings(self@));
                }
            },
        }
    }
}

/// An ordered collection of references rendered as a bracketed list.
/// Order is significant and preserved verbatim.
pub struct ReferenceList {
    refs: Vec<Reference>,
}

impl View for ReferenceList {
    type V = Seq<ReferenceView>;

    closed spec fn view(&self) -> Seq<ReferenceView> {
        self.refs@.map_values(|r: Reference| r@)
    }
}

impl ReferenceList {
    /// Wraps an ordered sequence of references.  There is nothing to
    /// validate beyond what each reference's own constructor enforced.
    pub fn new(refs: Vec<Reference>) -> (r: ReferenceList)
        ensures
            r@ == refs@.map_values(|x: Reference| x@),
    {
        ReferenceList { refs }
    }

    /// How many references the list holds.
    pub fn len(&self) -> (r: usize)
        ensures
            r == self@.len(),
    {
        self.refs.len()
    }

    /// The reference at one position.
    pub fn get(&self, i: usize) -> (r: &Reference)
        requires
            i < self@.len(),
        ensures
            r@ == self@[i as int],
    {
        &self.refs[i]
    }

    /// The ordered, deduplicated union of the bindings its references
    /// require, each identity at its first occurrence in a front-to-back
    /// scan.
    pub fn required_bindings(&self) -> (r: Vec<Binding>)
        ensures
            r@.map_values(|b: Binding| b@) == dedup_bindings(refs_bindings(self@)),
    {
        let mut acc: Vec<Binding> = Vec::new();
        proof {
            assert(acc@.map_values(|b: Binding| b@) =~= Seq::<BindingView>::empty());
        }
        self.collect_bindings(&mut acc);
        proof {
            assert(Seq::<BindingView>::empty() + refs_bindings(self@) =~= refs_bindings(self@));
        }
        dedup_vec(&acc)
    }

    /// Appends the bindings of every reference, in scan order, to an
    /// accumulator; duplicates are kept for the engine to merge.
    pub fn collect_bindings(&self, acc: &mut Vec<Binding>)
        ensures
            final(acc)@.map_values(|b: Binding| b@) == old(acc)@.map_values(|b: Binding| b@)
                + refs_bindings(self@),
    {
        let ghost prev = acc@.map_values(|b: Binding| b@);
        let mut i: usize = 0;
        proof {
            assert(refs_bindings(self@.take(0)) =~= Seq::empty());
            assert(prev + refs_bindings(self@.take(0)) =~= prev);
        }
        while i < self.refs.len()
            invariant
                i <= self.refs.len(),
                prev == old(acc)@.map_values(|b: Binding| b@),
                acc@.map_values(|b: Binding| b@) == prev + refs_bindings(self@.take(i as int)),
            decreases self.refs.len() - i,
        {
            self.refs[i].collect_bindings(acc);
            proof {
                assert(self@.take(i + 1).drop_last() =~= self@.take(i as int));
                assert(self@.take(i + 1).last() == self@[i as int]);
                assert(self@[i as int] == self.refs@[i as int]@);
                assert(prev + refs_bindings(self@.take(i as int)) + ref_bindings(self@[i as int])
                    =~= prev + refs_bindings(self@.take(i + 1)));
            }
            i = i + 1;
        }
        proof {
            assert(self@.take(self@.len() as int) =~= self@);
        }
    }

    /// Renders the list's body lines at depth `d`: brackets at `d`, one
    /// reference per line at `d + 1`, in input order.
    pub fn body_lines(&self, d: usize) -> (r: Vec<Line>)
        requires
            d < usize::MAX,
        ensures
            r@.map_values(|l: Line| l@) == list_lines(self@, d as int),
    {
        let mut r: Vec<Line> = Vec::new();
        r.push(Line { depth: d, text: String::from_str("[") });
        let ghost open_part = seq![LineView { depth: d as int, text: "["@ }];
        proof {
            assert(r@.map_values(|l: Line| l@) =~= open_part + Seq::new(
                0,
                |i: int| LineView { depth: d + 1, text: ref_text(self@[i]) },
            ));
        }
        let mut i: usize = 0;
        while i < self.refs.len()
            invariant
                i <= self.refs.len(),
                d < usize::MAX,
                open_part == seq![LineView { depth: d as int, text: "["@ }],
                r@.map_values(|l: Line| l@) == open_part + Seq::new(
                    i as nat,
                    |j: int| LineView { depth: d + 1, text: ref_text(self@[j]) },
                ),
            decreases self.refs.len() - i,
        {
            let ghost prev = r@.map_values(|l: Line| l@);
            let t = self.refs[i].render();
            r.push(Line { depth: d + 1, text: t });
            proof {
                assert(self@[i as int] == self.refs@[i as int]@);
                assert(r@.map_values(|l: Line| l@) =~= prev.push(
                    LineView { depth: d + 1, text: ref_text(self@[i as int]) },
                ));
                assert(prev.push(LineView { depth: d + 1, text: ref_text(self@[i as int]) })
                    =~= open_part + Seq::new(
                    (i + 1) as nat,
                    |j: int| LineView { depth: d + 1, text: ref_text(self@[j]) },
                ));
            }
            i = i + 1;
        }
        let ghost prev = r@.map_values(|l: Line| l@);
        r.push(Line { depth: d, text: String::from_str("]") });
        proof {
            assert(r@.map_values(|l: Line| l@) =~= prev.push(
                LineView { depth: d as int, text: "]"@ },
            ));
            assert(prev.push(LineView { depth: d as int, text: "]"@ }) =~= list_lines(
                self@,
                d as int,
            ));
        }
        r
    }
}

} // verus!
