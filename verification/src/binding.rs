//! Bindings: external names imported from a named source path, together
//! with the construction-time validation errors of the whole object model.

use vstd::prelude::*;
use vstd::string::StringExecFns;

verus! {

/// The reasons a node of the object model is rejected at construction
/// time.  Rendering itself cannot fail once a tree is validly built.
#[derive(Clone, Copy, Debug, PartialEq, Eq, Structural)]
pub enum BuildError {
    /// A reference was given an empty dotted path.
    InvalidReference,
    /// A binding was given an empty source path or an empty name.
    InvalidBinding,
    /// A configuration block was given an empty name.
    InvalidBlockName,
}

/// Mathematical model of a [`Binding`]: both fields as character sequences.
pub struct BindingView {
    pub source_path: Seq<char>,
    pub name: Seq<char>,
}

impl BindingView {
    /// A binding is well formed when neither field is empty.
    pub open spec fn wf(self) -> bool {
        self.source_path.len() > 0 && self.name.len() > 0
    }
}

/// The text of the hoisted prelude declaration for one binding:
/// `inherit (<source_path>) <name>;`.
pub open spec fn prelude_text(b: BindingView) -> Seq<char> {
    "inherit ("@ + b.source_path + ") "@ + b.name + ";"@
}

/// One external name imported from a named source path, to be hoisted
/// into a shared `let … in` prelude.  Identity is the whole
/// `(source_path, name)` pair; two bindings with the same pair collapse
/// to one prelude line.
pub struct Binding {
    source_path: String,
    name: String,
}

impl View for Binding {
    type V = BindingView;

    closed spec fn view(&self) -> BindingView {
        BindingView { source_path: self.source_path@, name: self.name@ }
    }
}

impl Clone for Binding {
    fn clone(&self) -> (r: Self)
        ensures
            r@ == self@,
    {
        Binding { source_path: self.source_path.clone(), name: self.name.clone() }
    }
}

impl Binding {
    /// Builds a binding, rejecting an empty source path or name.
    pub fn new(source_path: &str, name: &str) -> (r: Result<Binding, BuildError>)
        ensures
            match r {
                Ok(b) => b@ == (BindingView { source_path: source_path@, name: name@ })
                    && b@.wf(),
                Err(e) => e == BuildError::InvalidBinding && (source_path@.len() == 0
                    || name@.len() == 0),
            },
    {
        if source_path.is_empty() || name.is_empty() {
            Err(BuildError::InvalidBinding)
        } else {
            Ok(
                Binding {
                    source_path: String::from_str(source_path),
                    name: String::from_str(name),
                },
            )
        }
    }

    /// The source path this binding imports from.
    pub fn source_path(&self) -> (r: &str)
        ensures
            r@ == self@.source_path,
    {
        self.source_path.as_str()
    }

    /// The name this binding brings into scope.
    pub fn name(&self) -> (r: &str)
        ensures
            r@ == self@.name,
    {
        self.name.as_str()
    }

    /// Renders the binding as it appears inside an expression: the bare name.
    pub fn render(&self) -> (r: String)
        ensures
            r@ == self@.name,
    {
        self.name.clone()
    }

    /// Renders the hoisted prelude declaration, e.g. `inherit (inputs) disko;`.
    pub fn prelude_line(&self) -> (r: String)
        ensures
            r@ == prelude_text(self@),
    {
        let mut s = String::from_str("inherit (");
        s.append(self.source_path.as_str());
        s.append(") ");
        s.append(self.name.as_str());
        s.append(";");
        s
    }

    /// Preset: the `disko` name taken from the `inputs` source path.
    pub fn disko() -> (r: Binding)
        ensures
            r@ == (BindingView { source_path: "inputs"@, name: "disko"@ }),
            r@.wf(),
    {
        proof {
            reveal_strlit("inputs");
            reveal_strlit("disko");
        }
        Binding { source_path: String::from_str("inputs"), name: String::from_str("disko") }
    }

    /// Preset: the `nixpkgs` name taken from the `inputs` source path.
    pub fn nixpkgs() -> (r: Binding)
        ensures
            r@ == (BindingView { source_path: "inputs"@, name: "nixpkgs"@ }),
            r@.wf(),
    {
        proof {
            reveal_strlit("inputs");
            reveal_strlit("nixpkgs");
        }
        Binding { source_path: String::from_str("inputs"), name: String::from_str("nixpkgs") }
    }

    /// Preset: the `home-manager` name taken from the `inputs` source path.
    pub fn home_manager() -> (r: Binding)
        ensures
            r@ == (BindingView { source_path: "inputs"@, name: "home-manager"@ }),
            r@.wf(),
    {
        proof {
            reveal_strlit("inputs");
            reveal_strlit("home-manager");
        }
        Binding {
            source_path: String::from_str("inputs"),
            name: String::from_str("home-manager"),
        }
    }

    /// Whether two bindings are the same requirement: both the source
    /// path and the name agree.
    pub fn same_identity(&self, other: &Binding) -> (r: bool)
        ensures
            r == (self@ == other@),
    {
        let r = self.source_path.eq(&other.source_path) && self.name.eq(&other.name);
        proof {
            if r {
                assert(self@ == other@);
            }
        }
        r
    }
}

} // verus!
