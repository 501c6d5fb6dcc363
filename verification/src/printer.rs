//! The low-level pretty-printer collaborator: genco's token buffer,
//! driven through the four primitives the engine needs — append a text
//! fragment, break the line, indent, outdent — plus a blank-line
//! separator, and finally formatted into lines.
//!
//! The buffer's contents are modelled as a sequence of steps
//! `(kind, text)`: kind 0 is a literal text fragment, 1 a line break,
//! 2 a blank-line separator, 3 an indent, 4 an outdent.  genco collapses
//! runs of whitespace items while the buffer is built, so every
//! whitespace primitive is only trusted — and only used — right after a
//! literal fragment, where genco's source shows it appends exactly one
//! item.

use vstd::prelude::*;
use vstd::string::StringExecFns;
use crate::binding::{prelude_text, Binding, BindingView};
use crate::block::{BlockView, ConfigurationBlock, ConfigurationEntry};
use crate::dedup::dedup_bindings;
use crate::document::{doc_bindings, Document, DocumentView};
use crate::reference::{ref_text, Reference, ReferenceList, ReferenceView};

verus! {

/// The pretty-printer's buffer: genco's token stream for the Nix
/// dialect.  Verus refuses declaring `genco::Tokens` itself (its type
/// parameter is bound by genco's `Lang` trait), so the buffer is held
/// opaquely; `printer_steps` is all Verus knows of it.
#[verifier::external_body]
pub struct PrinterBuffer {
    tokens: genco::lang::nix::Tokens,
}

/// The shape of a printer write failure.  Rendering proves it never
/// occurs — `render_with_printer` ensures `Ok` — since the printer
/// writes into memory and is handed only fragments and whitespace.
#[derive(Clone, Copy, Debug, PartialEq, Eq, Structural)]
pub enum PrinterFailure {
    Write,
}

/// What a genco token buffer holds, as steps `(kind, text)`.
pub uninterp spec fn printer_steps(t: PrinterBuffer) -> Seq<(int, Seq<char>)>;

/// The lines genco's formatter prints for a buffer of steps, four spaces
/// per indentation level: a deterministic function of the steps alone.
pub uninterp spec fn printed_lines(steps: Seq<(int, Seq<char>)>) -> Seq<Seq<char>>;

/// A literal text fragment.
pub open spec fn text_step(s: Seq<char>) -> (int, Seq<char>) {
    (0, s)
}

/// A line break.
pub open spec fn newline_step() -> (int, Seq<char>) {
    (1, Seq::empty())
}

/// A blank-line separator.
pub open spec fn blank_step() -> (int, Seq<char>) {
    (2, Seq::empty())
}

/// One level of indentation.
pub open spec fn indent_step() -> (int, Seq<char>) {
    (3, Seq::empty())
}

/// One level of outdentation.
pub open spec fn outdent_step() -> (int, Seq<char>) {
    (4, Seq::empty())
}

/// Whether a whitespace primitive may follow: the buffer is empty or its
/// last step is a literal fragment, so genco will not collapse anything.
pub open spec fn at_literal(steps: Seq<(int, Seq<char>)>) -> bool {
    steps.len() == 0 || steps.last().0 == 0
}

/// Relies on genco's `Tokens::new`: the fresh buffer is empty.
#[verifier::external_body]
fn printer_new() -> (t: PrinterBuffer)
    ensures
        printer_steps(t) == Seq::<(int, Seq<char>)>::empty(),
{
    PrinterBuffer { tokens: genco::Tokens::new() }
}

/// Relies on genco's `Tokens::append` for `&str`: it pushes exactly one
/// literal item holding the given text.
#[verifier::external_body]
fn printer_append(t: &mut PrinterBuffer, s: &str)
    ensures
        printer_steps(*final(t)) == printer_steps(*old(t)).push(text_step(s@)),
{
    t.tokens.append(s);
}

/// Relies on genco's `Tokens::push`: after a literal item (or on an empty
/// buffer) it pushes exactly one line-break item.
#[verifier::external_body]
fn printer_newline(t: &mut PrinterBuffer)
    requires
        at_literal(printer_steps(*old(t))),
    ensures
        printer_steps(*final(t)) == printer_steps(*old(t)).push(newline_step()),
{
    t.tokens.push();
}

/// Relies on genco's `Tokens::line`: after a literal item (or on an empty
/// buffer) it pushes exactly one blank-line item.
#[verifier::external_body]
fn printer_blank_line(t: &mut PrinterBuffer)
    requires
        at_literal(printer_steps(*old(t))),
    ensures
        printer_steps(*final(t)) == printer_steps(*old(t)).push(blank_step()),
{
    t.tokens.line();
}

/// Relies on genco's `Tokens::indent`: after a literal item (or on an
/// empty buffer) it pushes exactly one indentation item.
#[verifier::external_body]
fn printer_indent(t: &mut PrinterBuffer)
    requires
        at_literal(printer_steps(*old(t))),
    ensures
        printer_steps(*final(t)) == printer_steps(*old(t)).push(indent_step()),
{
    t.tokens.indent();
}

/// Relies on genco's `Tokens::unindent`: after a literal item (or on an
/// empty buffer) it pushes exactly one outdentation item.
#[verifier::external_body]
fn printer_outdent(t: &mut PrinterBuffer)
    requires
        at_literal(printer_steps(*old(t))),
    ensures
        printer_steps(*final(t)) == printer_steps(*old(t)).push(outdent_step()),
{
    t.tokens.unindent();
}

/// Relies on genco's `VecWriter`, `Formatter` and `Tokens::format_file`
/// with a scoped configuration: with no language items registered they
/// print exactly the buffered items as lines — `printed_lines` of the
/// buffer's steps.  Success is owed: `VecWriter` writes into memory and
/// its write methods unconditionally succeed, and the formatter's error
/// arms fire only on token kinds (quotes, evaluation markers, language
/// items) that no primitive of this buffer can produce.
#[verifier::external_body]
fn printer_finish(t: &PrinterBuffer) -> (r: Result<Vec<String>, PrinterFailure>)
    ensures
        r is Ok,
        r matches Ok(v) ==> v@.map_values(|s: String| s@) == printed_lines(printer_steps(*t)),
{
    let mut w = genco::fmt::VecWriter::new();
    let fmt_config = genco::fmt::Config::from_lang::<genco::lang::Nix>();
    let config = genco::lang::nix::Config::default().with_scoped(true);
    let outcome = {
        let mut f = w.as_formatter(&fmt_config);
        t.tokens.format_file(&mut f, &config)
    };
    match outcome {
        Ok(()) => Ok(w.into_vec()),
        Err(_) => Err(PrinterFailure::Write),
    }
}

/// The steps of references printed one per line: the first bare, each
/// following one behind a line break.
pub open spec fn refs_steps(rs: Seq<ReferenceView>) -> Seq<(int, Seq<char>)>
    decreases rs.len(),
{
    if rs.len() == 0 {
        Seq::empty()
    } else if rs.len() == 1 {
        seq![text_step(ref_text(rs[0]))]
    } else {
        refs_steps(rs.drop_last()) + seq![newline_step(), text_step(ref_text(rs.last()))]
    }
}

/// The steps of a bracketed reference list.
pub open spec fn list_steps(rs: Seq<ReferenceView>) -> Seq<(int, Seq<char>)> {
    if rs.len() == 0 {
        seq![text_step("["@), newline_step(), text_step("]"@)]
    } else {
        seq![text_step("["@), indent_step()] + refs_steps(rs) + seq![
            outdent_step(),
            text_step("]"@),
        ]
    }
}

/// The steps of one configuration block.
pub open spec fn block_steps(b: BlockView) -> Seq<(int, Seq<char>)> {
    seq![text_step(b.name + " = {"@), indent_step(), text_step("imports = ["@)] + (
    if b.entries.len() == 0 {
        seq![newline_step()]
    } else {
        seq![indent_step()] + refs_steps(crate::block::imports_of(b.entries)) + seq![
            outdent_step(),
        ]
    }) + seq![text_step("];"@), outdent_step(), text_step("};"@)]
}

/// The steps of sibling blocks, each behind a line break.
pub open spec fn blocks_inner_steps(bs: Seq<BlockView>) -> Seq<(int, Seq<char>)>
    decreases bs.len(),
{
    if bs.len() == 0 {
        Seq::empty()
    } else if bs.len() == 1 {
        block_steps(bs[0])
    } else {
        blocks_inner_steps(bs.drop_last()) + seq![newline_step()] + block_steps(bs.last())
    }
}

/// The steps of a block-set document body.
pub open spec fn blocks_steps(bs: Seq<BlockView>) -> Seq<(int, Seq<char>)> {
    if bs.len() == 0 {
        seq![text_step("{"@), newline_step(), text_step("}"@)]
    } else {
        seq![text_step("{"@), indent_step()] + blocks_inner_steps(bs) + seq![
            outdent_step(),
            text_step("}"@),
        ]
    }
}

/// The steps of the hoisted prelude declarations, one per line.
pub open spec fn prelude_inner_steps(req: Seq<BindingView>) -> Seq<(int, Seq<char>)>
    decreases req.len(),
{
    if req.len() == 0 {
        Seq::empty()
    } else if req.len() == 1 {
        seq![text_step(prelude_text(req[0]))]
    } else {
        prelude_inner_steps(req.drop_last()) + seq![
            newline_step(),
            text_step(prelude_text(req.last())),
        ]
    }
}

/// The steps of the whole prelude: nothing without bindings, else the
/// `let … in` block and a blank separator.
pub open spec fn prelude_steps(req: Seq<BindingView>) -> Seq<(int, Seq<char>)> {
    if req.len() == 0 {
        Seq::empty()
    } else {
        seq![text_step("let"@), indent_step()] + prelude_inner_steps(req) + seq![
            outdent_step(),
            text_step("in"@),
            blank_step(),
        ]
    }
}

/// The steps of a document body.
pub open spec fn body_steps(d: DocumentView) -> Seq<(int, Seq<char>)> {
    match d {
        DocumentView::Reference(r) => seq![text_step(ref_text(r))],
        DocumentView::List(rs) => list_steps(rs),
        DocumentView::Blocks(bs) => blocks_steps(bs),
    }
}

/// Every step handed to the pretty-printer for a document: the prelude of
/// its deduplicated bindings, then its body.
pub open spec fn doc_steps(d: DocumentView) -> Seq<(int, Seq<char>)> {
    prelude_steps(dedup_bindings(doc_bindings(d))) + body_steps(d)
}

/// Hands a reference's fragment to the printer.
fn print_reference(r: &Reference, t: &mut PrinterBuffer)
    ensures
        printer_steps(*final(t)) == printer_steps(*old(t)).push(text_step(ref_text(r@))),
{
    let s = r.render();
    printer_append(t, s.as_str());
}

/// Hands a bracketed reference list to the printer.
fn print_list(l: &ReferenceList, t: &mut PrinterBuffer)
    ensures
        printer_steps(*final(t)) == printer_steps(*old(t)) + list_steps(l@),
        printer_steps(*final(t)).len() > 0 && printer_steps(*final(t)).last().0 == 0,
{
    let ghost base = printer_steps(*t);
    printer_append(t, "[");
    if l.len() == 0 {
        printer_newline(t);
        printer_append(t, "]");
        proof {
            assert(printer_steps(*t) =~= base + list_steps(l@));
        }
        return ;
    }
    printer_indent(t);
    let n: usize = l.len();
    let mut i: usize = 0;
    let ghost open_part = seq![text_step("["@), indent_step()];
    while i < n
        invariant
            i <= n,
            n == l@.len(),
            base == printer_steps(*old(t)),
            open_part == seq![text_step("["@), indent_step()],
            printer_steps(*t) == base + open_part + refs_steps(l@.take(i as int)),
            i > 0 ==> printer_steps(*t).last() == text_step(ref_text(l@[i - 1])),
        decreases n - i,
    {
        if i > 0 {
            printer_newline(t);
        }
        print_reference(l.get(i), t);
        proof {
            assert(l@.take(i + 1).drop_last() =~= l@.take(i as int));
            assert(l@.take(i + 1).last() == l@[i as int]);
            if i == 0 {
                assert(refs_steps(l@.take(1)) =~= seq![text_step(ref_text(l@[0]))]);
                assert(printer_steps(*t) =~= base + open_part + refs_steps(l@.take(1)));
            } else {
                assert(refs_steps(l@.take(i + 1)) =~= refs_steps(l@.take(i as int)) + seq![
                    newline_step(),
                    text_step(ref_text(l@[i as int])),
                ]);
                assert(printer_steps(*t) =~= base + open_part + refs_steps(l@.take(i + 1)));
            }
        }
        i = i + 1;
    }
    printer_outdent(t);
    printer_append(t, "]");
    proof {
        assert(l@.take(l@.len() as int) =~= l@);
        assert(printer_steps(*t) =~= base + list_steps(l@));
    }
}

/// Hands one configuration block to the printer.
fn print_block(b: &ConfigurationBlock, t: &mut PrinterBuffer)
    ensures
        printer_steps(*final(t)) == printer_steps(*old(t)) + block_steps(b@),
        printer_steps(*final(t)).len() > 0 && printer_steps(*final(t)).last().0 == 0,
{
    let ghost base = printer_steps(*t);
    let ghost imports = crate::block::imports_of(b@.entries);
    let mut head = String::new();
    head.append(b.name());
    head.append(" = {");
    printer_append(t, head.as_str());
    printer_indent(t);
    printer_append(t, "imports = [");
    let ghost open_part = seq![
        text_step(b@.name + " = {"@),
        indent_step(),
        text_step("imports = ["@),
    ];
    proof {
        assert(printer_steps(*t) =~= base + open_part);
    }
    let n: usize = b.entry_count();
    if n == 0 {
        printer_newline(t);
        printer_append(t, "];");
        printer_outdent(t);
        printer_append(t, "};");
        proof {
            assert(printer_steps(*t) =~= base + block_steps(b@));
        }
        return ;
    }
    printer_indent(t);
    let mut i: usize = 0;
    while i < n
        invariant
            i <= n,
            n == b@.entries.len(),
            imports == crate::block::imports_of(b@.entries),
            base == printer_steps(*old(t)),
            open_part == seq![
                text_step(b@.name + " = {"@),
                indent_step(),
                text_step("imports = ["@),
            ],
            printer_steps(*t) == base + open_part + seq![indent_step()] + refs_steps(
                imports.take(i as int),
            ),
            i > 0 ==> printer_steps(*t).last() == text_step(ref_text(imports[i - 1])),
        decreases n - i,
    {
        if i > 0 {
            printer_newline(t);
        }
        match b.entry(i) {
            ConfigurationEntry::ImportEntry(rf) => {
                print_reference(rf, t);
                proof {
                    assert(imports[i as int] == crate::block::entry_import(b@.entries[i as int]));
                    assert(ref_text(imports[i as int]) == ref_text(rf@));
                }
            },
        }
        proof {
            assert(imports.take(i + 1).drop_last() =~= imports.take(i as int));
            assert(imports.take(i + 1).last() == imports[i as int]);
            if i == 0 {
                assert(refs_steps(imports.take(1)) =~= seq![text_step(ref_text(imports[0]))]);
                assert(printer_steps(*t) =~= base + open_part + seq![indent_step()] + refs_steps(
                    imports.take(1),
                ));
            } else {
                assert(refs_steps(imports.take(i + 1)) =~= refs_steps(imports.take(i as int))
                    + seq![newline_step(), text_step(ref_text(imports[i as int]))]);
                assert(printer_steps(*t) =~= base + open_part + seq![indent_step()] + refs_steps(
                    imports.take(i + 1),
                ));
            }
        }
        i = i + 1;
    }
    printer_outdent(t);
    printer_append(t, "];");
    printer_outdent(t);
    printer_append(t, "};");
    proof {
        assert(imports.take(imports.len() as int) =~= imports);
        assert(printer_steps(*t) =~= base + block_steps(b@));
    }
}

/// Hands the hoisted prelude to the printer.
fn print_prelude(req: &Vec<Binding>, t: &mut PrinterBuffer)
    requires
        req@.len() > 0,
    ensures
        printer_steps(*final(t)) == printer_steps(*old(t)) + prelude_steps(
            req@.map_values(|b: Binding| b@),
        ),
{
    let ghost base = printer_steps(*t);
    let ghost reqv = req@.map_values(|b: Binding| b@);
    printer_append(t, "let");
    printer_indent(t);
    let ghost open_part = seq![text_step("let"@), indent_step()];
    let mut i: usize = 0;
    while i < req.len()
        invariant
            i <= req.len(),
            reqv == req@.map_values(|b: Binding| b@),
            base == printer_steps(*old(t)),
            open_part == seq![text_step("let"@), indent_step()],
            printer_steps(*t) == base + open_part + prelude_inner_steps(reqv.take(i as int)),
            i > 0 ==> printer_steps(*t).last() == text_step(prelude_text(reqv[i - 1])),
        decreases req.len() - i,
    {
        if i > 0 {
            printer_newline(t);
        }
        let s = req[i].prelude_line();
        printer_append(t, s.as_str());
        proof {
            assert(reqv[i as int] == req@[i as int]@);
            assert(reqv.take(i + 1).drop_last() =~= reqv.take(i as int));
            assert(reqv.take(i + 1).last() == reqv[i as int]);
            if i == 0 {
                assert(prelude_inner_steps(reqv.take(1)) =~= seq![
                    text_step(prelude_text(reqv[0])),
                ]);
                assert(printer_steps(*t) =~= base + open_part + prelude_inner_steps(
                    reqv.take(1),
                ));
            } else {
                assert(prelude_inner_steps(reqv.take(i + 1)) =~= prelude_inner_steps(
                    reqv.take(i as int),
                ) + seq![newline_step(), text_step(prelude_text(reqv[i as int]))]);
                assert(printer_steps(*t) =~= base + open_part + prelude_inner_steps(
                    reqv.take(i + 1),
                ));
            }
        }
        i = i + 1;
    }
    printer_outdent(t);
    printer_append(t, "in");
    printer_blank_line(t);
    proof {
        assert(reqv.take(reqv.len() as int) =~= reqv);
        assert(printer_steps(*t) =~= base + prelude_steps(reqv));
    }
}

impl Document {
    /// Renders the document through the external pretty-printer instead
    /// of the engine's own text assembly: the same tree walk hands the
    /// printer one fragment, line break, indent or outdent at a time, and
    /// the printer turns them into lines.  It always succeeds: the
    /// printer writes into memory, and this walk hands it only fragments
    /// and whitespace instructions.
    pub fn render_with_printer(&self) -> (r: Result<Vec<String>, PrinterFailure>)
        ensures
            r is Ok,
            r matches Ok(v) ==> v@.map_values(|s: String| s@) == printed_lines(doc_steps(self@)),
    {
        let mut t = printer_new();
        let req = self.required_bindings();
        let ghost reqv = req@.map_values(|b: Binding| b@);
        if req.len() > 0 {
            print_prelude(&req, &mut t);
        } else {
            proof {
                assert(printer_steps(t) =~= prelude_steps(reqv));
            }
        }
        let ghost prelude_part = printer_steps(t);
        match self {
            Document::Reference(r) => {
                print_reference(r, &mut t);
                proof {
                    assert(printer_steps(t) =~= prelude_part + body_steps(self@));
                }
            },
            Document::List(l) => {
                print_list(l, &mut t);
                proof {
                    assert(printer_steps(t) =~= prelude_part + body_steps(self@));
                }
            },
            Document::Blocks(bs) => {
                let ghost bsv = bs@.map_values(|b: ConfigurationBlock| b@);
                let ghost base = printer_steps(t);
                printer_append(&mut t, "{");
                if bs.len() == 0 {
                    printer_newline(&mut t);
                    printer_append(&mut t, "}");
                    proof {
                        assert(printer_steps(t) =~= base + blocks_steps(bsv));
                        assert(printer_steps(t) =~= prelude_part + body_steps(self@));
                    }
                } else {
                    printer_indent(&mut t);
                    let ghost open_part = seq![text_step("{"@), indent_step()];
                    let mut i: usize = 0;
                    while i < bs.len()
                        invariant
                            i <= bs.len(),
                            bs.len() > 0,
                            bsv == bs@.map_values(|b: ConfigurationBlock| b@),
                            base == prelude_part,
                            open_part == seq![text_step("{"@), indent_step()],
                            printer_steps(t) == base + open_part + blocks_inner_steps(
                                bsv.take(i as int),
                            ),
                            i > 0 ==> printer_steps(t).len() > 0 && printer_steps(t).last().0
                                == 0,
                        decreases bs.len() - i,
                    {
                        if i > 0 {
                            printer_newline(&mut t);
                        }
                        print_block(&bs[i], &mut t);
                        proof {
                            assert(bsv[i as int] == bs@[i as int]@);
                            assert(bsv.take(i + 1).drop_last() =~= bsv.take(i as int));
                            assert(bsv.take(i + 1).last() == bsv[i as int]);
                            if i == 0 {
                                assert(blocks_inner_steps(bsv.take(1)) =~= block_steps(bsv[0]));
                                assert(printer_steps(t) =~= base + open_part + blocks_inner_steps(
                                    bsv.take(1),
                                ));
                            } else {
                                assert(blocks_inner_steps(bsv.take(i + 1))
                                    =~= blocks_inner_steps(bsv.take(i as int)) + seq![
                                    newline_step(),
                                ] + block_steps(bsv[i as int]));
                                assert(printer_steps(t) =~= base + open_part + blocks_inner_steps(
                                    bsv.take(i + 1),
                                ));
                            }
                        }
                        i = i + 1;
                    }
                    printer_outdent(&mut t);
                    printer_append(&mut t, "}");
                    proof {
                        assert(bsv.take(bsv.len() as int) =~= bsv);
                        assert(printer_steps(t) =~= base + blocks_steps(bsv));
                        assert(printer_steps(t) =~= prelude_part + body_steps(self@));
                    }
                }
            },
        }
        proof {
            assert(printer_steps(t) =~= doc_steps(self@));
        }
        printer_finish(&t)
    }
}

} // verus!
