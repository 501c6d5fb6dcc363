//! The emission engine: a rendering root, its merged binding
//! requirements, and the final text with the hoisted `let … in` prelude.

use vstd::prelude::*;
use vstd::string::StringExecFns;
use crate::binding::{prelude_text, Binding, BindingView};
use crate::block::{block_bindings, block_lines, BlockView, ConfigurationBlock};
use crate::dedup::{dedup_bindings, dedup_vec};
use crate::lines::{join, join_lines, render_all_lines, rendered_lines, Line, LineView};
use crate::reference::{list_lines, ref_bindings, ref_text, refs_bindings, Reference,
    ReferenceList, ReferenceView};

verus! {

/// A rendering root: any component of the object model, wrapped for one
/// top-level render call.  The engine holds no state across renders.
pub enum Document {
    /// A single dotted-path reference.
    Reference(Reference),
    /// A bracketed list of references.
    List(ReferenceList),
    /// Sibling configuration blocks inside one outer attribute set.
    Blocks(Vec<ConfigurationBlock>),
}

/// Mathematical model of a [`Document`].
pub enum DocumentView {
    Reference(ReferenceView),
    List(Seq<ReferenceView>),
    Blocks(Seq<BlockView>),
}

impl View for Document {
    type V = DocumentView;

    open spec fn view(&self) -> DocumentView {
        match self {
            Document::Reference(r) => DocumentView::Reference(r@),
            Document::List(l) => DocumentView::List(l@),
            Document::Blocks(bs) => DocumentView::Blocks(
                bs@.map_values(|b: ConfigurationBlock| b@),
            ),
        }
    }
}

/// The bindings a block sequence requires, in declaration order,
/// duplicates kept.
pub open spec fn blocks_bindings(bs: Seq<BlockView>) -> Seq<BindingView>
    decreases bs.len(),
{
    if bs.len() == 0 {
        Seq::empty()
    } else {
        blocks_bindings(bs.drop_last()) + block_bindings(bs.last())
    }
}

/// The body lines of sibling blocks inside one outer attribute set, each
/// block one level deep.
pub open spec fn blocks_inner_lines(bs: Seq<BlockView>) -> Seq<LineView>
    decreases bs.len(),
{
    if bs.len() == 0 {
        Seq::empty()
    } else {
        blocks_inner_lines(bs.drop_last()) + block_lines(bs.last(), 1)
    }
}

/// The body lines of a block-set document: braces at depth zero around
/// the blocks' own lines.
pub open spec fn blocks_lines(bs: Seq<BlockView>) -> Seq<LineView> {
    seq![LineView { depth: 0, text: "{"@ }] + blocks_inner_lines(bs) + seq![
        LineView { depth: 0, text: "}"@ },
    ]
}

/// Every binding a document's tree mentions, in a front-to-back scan,
/// duplicates kept.
pub open spec fn doc_bindings(d: DocumentView) -> Seq<BindingView> {
    match d {
        DocumentView::Reference(r) => ref_bindings(r),
        DocumentView::List(rs) => refs_bindings(rs),
        DocumentView::Blocks(bs) => blocks_bindings(bs),
    }
}

/// A document's body lines, without the prelude.
pub open spec fn doc_body_lines(d: DocumentView) -> Seq<LineView> {
    match d {
        DocumentView::Reference(r) => seq![LineView { depth: 0, text: ref_text(r) }],
        DocumentView::List(rs) => list_lines(rs, 0),
        DocumentView::Blocks(bs) => blocks_lines(bs),
    }
}

/// The prelude for a deduplicated binding sequence: nothing when it is
/// empty, else `let`, one hoisted declaration per binding one level deep,
/// `in`, and a blank separator line.
pub open spec fn prelude_lines(req: Seq<BindingView>) -> Seq<LineView> {
    if req.len() == 0 {
        Seq::empty()
    } else {
        seq![LineView { depth: 0, text: "let"@ }] + Seq::new(
            req.len(),
            |i: int| LineView { depth: 1, text: prelude_text(req[i]) },
        ) + seq![LineView { depth: 0, text: "in"@ }, LineView { depth: 0, text: Seq::empty() }]
    }
}

/// All lines of a rendered document: the prelude for its deduplicated
/// bindings, then its body.
pub open spec fn doc_lines(d: DocumentView) -> Seq<LineView> {
    prelude_lines(dedup_bindings(doc_bindings(d))) + doc_body_lines(d)
}

/// The final text of a document: its lines, indented four spaces per
/// level and joined with single newlines.
pub open spec fn doc_text(d: DocumentView) -> Seq<char> {
    join_lines(rendered_lines(doc_lines(d)))
}

/// The body lines of an anonymous configurations set: one attribute set
/// whose single `imports` key lists the references, one per line.
pub open spec fn configurations_lines(rs: Seq<ReferenceView>) -> Seq<LineView> {
    seq![
        LineView { depth: 0, text: "{"@ },
        LineView { depth: 1, text: "imports = ["@ },
    ] + Seq::new(rs.len(), |i: int| LineView { depth: 2, text: ref_text(rs[i]) }) + seq![
        LineView { depth: 1, text: "];"@ },
        LineView { depth: 0, text: "}"@ },
    ]
}

/// Builds the prelude block for an already deduplicated requirement
/// list: nothing when it is empty, else `let`, one hoisted declaration
/// per binding, `in`, and a blank separator line.
fn prelude_block(req: &Vec<Binding>) -> (r: Vec<Line>)
    ensures
        r@.map_values(|l: Line| l@) == prelude_lines(req@.map_values(|b: Binding| b@)),
{
    let ghost reqv = req@.map_values(|b: Binding| b@);
    let mut r: Vec<Line> = Vec::new();
    if req.len() == 0 {
        proof {
            assert(r@.map_values(|l: Line| l@) =~= prelude_lines(reqv));
        }
        return r;
    }
    r.push(Line { depth: 0, text: String::from_str("let") });
    let ghost open_part = seq![LineView { depth: 0, text: "let"@ }];
    proof {
        assert(r@.map_values(|l: Line| l@) =~= open_part + Seq::new(
            0,
            |i: int| LineView { depth: 1, text: prelude_text(reqv[i]) },
        ));
    }
    let mut i: usize = 0;
    while i < req.len()
        invariant
            i <= req.len(),
            reqv == req@.map_values(|b: Binding| b@),
            open_part == seq![LineView { depth: 0, text: "let"@ }],
            r@.map_values(|l: Line| l@) == open_part + Seq::new(
                i as nat,
                |j: int| LineView { depth: 1, text: prelude_text(reqv[j]) },
            ),
        decreases req.len() - i,
    {
        let ghost prev = r@.map_values(|l: Line| l@);
        let t = req[i].prelude_line();
        r.push(Line { depth: 1, text: t });
        proof {
            assert(reqv[i as int] == req@[i as int]@);
            assert(r@.map_values(|l: Line| l@) =~= prev.push(
                LineView { depth: 1, text: prelude_text(reqv[i as int]) },
            ));
            assert(prev.push(LineView { depth: 1, text: prelude_text(reqv[i as int]) })
                =~= open_part + Seq::new(
                (i + 1) as nat,
                |j: int| LineView { depth: 1, text: prelude_text(reqv[j]) },
            ));
        }
        i = i + 1;
    }
    let ghost prev = r@.map_values(|l: Line| l@);
    r.push(Line { depth: 0, text: String::from_str("in") });
    r.push(Line { depth: 0, text: String::new() });
    proof {
        assert(r@.map_values(|l: Line| l@) =~= prev.push(
            LineView { depth: 0, text: "in"@ },
        ).push(LineView { depth: 0, text: Seq::empty() }));
        assert(prev.push(LineView { depth: 0, text: "in"@ }).push(
            LineView { depth: 0, text: Seq::empty() },
        ) =~= prelude_lines(reqv));
    }
    r
}

/// Renders an anonymous configurations set: the hoisted prelude of the
/// list's bindings, then an attribute set whose single `imports` key
/// lists the references in input order.
pub fn render_configurations(l: &ReferenceList) -> (r: Vec<String>)
    ensures
        r@.map_values(|s: String| s@) == rendered_lines(
            prelude_lines(dedup_bindings(refs_bindings(l@))) + configurations_lines(l@),
        ),
{
    let req = l.required_bindings();
    let mut lines = prelude_block(&req);
    let ghost prelude_part = lines@.map_values(|l: Line| l@);
    lines.push(Line { depth: 0, text: String::from_str("{") });
    lines.push(Line { depth: 1, text: String::from_str("imports = [") });
    let ghost open_part = seq![
        LineView { depth: 0, text: "{"@ },
        LineView { depth: 1, text: "imports = ["@ },
    ];
    proof {
        assert(lines@.map_values(|l: Line| l@) =~= prelude_part + open_part + Seq::new(
            0,
            |j: int| LineView { depth: 2, text: ref_text(l@[j]) },
        ));
    }
    let n: usize = l.len();
    let mut i: usize = 0;
    while i < n
        invariant
            i <= n,
            n == l@.len(),
            prelude_part == prelude_lines(dedup_bindings(refs_bindings(l@))),
            open_part == seq![
                LineView { depth: 0, text: "{"@ },
                LineView { depth: 1, text: "imports = ["@ },
            ],
            lines@.map_values(|x: Line| x@) == prelude_part + open_part + Seq::new(
                i as nat,
                |j: int| LineView { depth: 2, text: ref_text(l@[j]) },
            ),
        decreases n - i,
    {
        let ghost prev = lines@.map_values(|x: Line| x@);
        let t = l.get(i).render();
        lines.push(Line { depth: 2, text: t });
        proof {
            assert(lines@.map_values(|x: Line| x@) =~= prev.push(
                LineView { depth: 2, text: ref_text(l@[i as int]) },
            ));
            assert(prev.push(LineView { depth: 2, text: ref_text(l@[i as int]) })
                =~= prelude_part + open_part + Seq::new(
                (i + 1) as nat,
                |j: int| LineView { depth: 2, text: ref_text(l@[j]) },
            ));
        }
        i = i + 1;
    }
    let ghost prev = lines@.map_values(|x: Line| x@);
    lines.push(Line { depth: 1, text: String::from_str("];") });
    lines.push(Line { depth: 0, text: String::from_str("}") });
    proof {
        assert(lines@.map_values(|x: Line| x@) =~= prev.push(
            LineView { depth: 1, text: "];"@ },
        ).push(LineView { depth: 0, text: "}"@ }));
        assert(prev.push(LineView { depth: 1, text: "];"@ }).push(
            LineView { depth: 0, text: "}"@ },
        ) =~= prelude_lines(dedup_bindings(refs_bindings(l@))) + configurations_lines(l@));
    }
    render_all_lines(&lines)
}

impl Document {
    /// Collects every binding the tree mentions, in scan order,
    /// duplicates kept.
    fn collect_bindings(&self) -> (r: Vec<Binding>)
        ensures
            r@.map_values(|b: Binding| b@) == doc_bindings(self@),
    {
        let mut acc: Vec<Binding> = Vec::new();
        proof {
            assert(acc@.map_values(|b: Binding| b@) =~= Seq::<BindingView>::empty());
        }
        match self {
            Document::Reference(r) => {
                r.collect_bindings(&mut acc);
                proof {
                    assert(Seq::<BindingView>::empty() + ref_bindings(r@) =~= ref_bindings(r@));
                }
            },
            Document::List(l) => {
                l.collect_bindings(&mut acc);
                proof {
                    assert(Seq::<BindingView>::empty() + refs_bindings(l@) =~= refs_bindings(l@));
                }
            },
            Document::Blocks(bs) => {
                let ghost bsv = bs@.map_values(|b: ConfigurationBlock| b@);
                let mut i: usize = 0;
                proof {
                    assert(blocks_bindings(bsv.take(0)) =~= Seq::<BindingView>::empty());
                }
                while i < bs.len()
                    invariant
                        i <= bs.len(),
                        bsv == bs@.map_values(|b: ConfigurationBlock| b@),
                        acc@.map_values(|b: Binding| b@) == blocks_bindings(bsv.take(i as int)),
                    decreases bs.len() - i,
                {
                    bs[i].collect_bindings(&mut acc);
                    proof {
                        assert(bsv.take(i + 1).drop_last() =~= bsv.take(i as int));
                        assert(bsv.take(i + 1).last() == bsv[i as int]);
                        assert(bsv[i as int] == bs@[i as int]@);
                    }
                    i = i + 1;
                }
                proof {
                    assert(bsv.take(bsv.len() as int) =~= bsv);
                }
            },
        }
        acc
    }

    /// The deduplicated bindings the whole tree requires, in
    /// first-occurrence order.
    pub fn required_bindings(&self) -> (r: Vec<Binding>)
        ensures
            r@.map_values(|b: Binding| b@) == dedup_bindings(doc_bindings(self@)),
    {
        let raw = self.collect_bindings();
        dedup_vec(&raw)
    }

    /// The document's body lines, without the prelude.
    pub fn body_lines(&self) -> (r: Vec<Line>)
        ensures
            r@.map_values(|l: Line| l@) == doc_body_lines(self@),
    {
        match self {
            Document::Reference(rf) => {
                let mut r: Vec<Line> = Vec::new();
                let t = rf.render();
                r.push(Line { depth: 0, text: t });
                proof {
                    assert(r@.map_values(|l: Line| l@) =~= doc_body_lines(self@));
                }
                r
            },
            Document::List(l) => l.body_lines(0),
            Document::Blocks(bs) => {
                let ghost bsv = bs@.map_values(|b: ConfigurationBlock| b@);
                let mut r: Vec<Line> = Vec::new();
                r.push(Line { depth: 0, text: String::from_str("{") });
                let ghost open_part = seq![LineView { depth: 0, text: "{"@ }];
                proof {
                    assert(r@.map_values(|l: Line| l@) =~= open_part + blocks_inner_lines(
                        bsv.take(0),
                    ));
                }
                let mut i: usize = 0;
                while i < bs.len()
                    invariant
                        i <= bs.len(),
                        bsv == bs@.map_values(|b: ConfigurationBlock| b@),
                        open_part == seq![LineView { depth: 0, text: "{"@ }],
                        r@.map_values(|l: Line| l@) == open_part + blocks_inner_lines(
                            bsv.take(i as int),
                        ),
                    decreases bs.len() - i,
                {
                    let ghost prev = r@.map_values(|l: Line| l@);
                    let mut part = bs[i].body_lines(1);
                    let ghost partv = part@.map_values(|l: Line| l@);
                    r.append(&mut part);
                    proof {
                        assert(bsv.take(i + 1).drop_last() =~= bsv.take(i as int));
                        assert(bsv.take(i + 1).last() == bsv[i as int]);
                        assert(bsv[i as int] == bs@[i as int]@);
                        assert(r@.map_values(|l: Line| l@) =~= prev + partv);
                        assert(prev + partv =~= open_part + blocks_inner_lines(bsv.take(i + 1)));
                    }
                    i = i + 1;
                }
                let ghost prev = r@.map_values(|l: Line| l@);
                r.push(Line { depth: 0, text: String::from_str("}") });
                proof {
                    assert(bsv.take(bsv.len() as int) =~= bsv);
                    assert(r@.map_values(|l: Line| l@) =~= prev.push(
                        LineView { depth: 0, text: "}"@ },
                    ));
                    assert(prev.push(LineView { depth: 0, text: "}"@ }) =~= blocks_lines(bsv));
                }
                r
            },
        }
    }

    /// All lines of the rendered document: the prelude for the tree's
    /// deduplicated bindings, then the body.
    pub fn lines(&self) -> (r: Vec<Line>)
        ensures
            r@.map_values(|l: Line| l@) == doc_lines(self@),
    {
        let req = self.required_bindings();
        let mut r = prelude_block(&req);
        let ghost prelude_part = r@.map_values(|l: Line| l@);
        let mut body = self.body_lines();
        let ghost bodyv = body@.map_values(|l: Line| l@);
        r.append(&mut body);
        proof {
            assert(r@.map_values(|l: Line| l@) =~= prelude_part + bodyv);
        }
        r
    }

    /// The rendered document as fully indented line texts.
    pub fn render_lines(&self) -> (r: Vec<String>)
        ensures
            r@.map_values(|s: String| s@) == rendered_lines(doc_lines(self@)),
    {
        let lines = self.lines();
        render_all_lines(&lines)
    }

    /// The rendered document as one text, lines joined with single
    /// newlines.
    pub fn render(&self) -> (r: String)
        ensures
            r@ == doc_text(self@),
    {
        let rendered = self.render_lines();
        join(&rendered)
    }
}

} // verus!
