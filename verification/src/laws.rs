//! The engine's guarantees, stated and proved over the rendering model.
//!
//! Each law here speaks about the spec functions that the executable
//! renderers are proved against, so it carries over to every render call.

use vstd::prelude::*;
use crate::binding::{prelude_text, BindingView};
use crate::block::BlockView;
use crate::dedup::{count_of, dedup_bindings, first_index, lemma_count_in_distinct_seq,
    lemma_dedup_first_occurrence_order, lemma_dedup_membership, lemma_dedup_no_duplicates};
use crate::document::{blocks_bindings, blocks_lines, doc_bindings, doc_lines, doc_text,
    prelude_lines, DocumentView};
use crate::lines::{join_lines, line_text, rendered_lines, spaces, LineView};
use crate::reference::{list_lines, ref_text, ReferenceView};

verus! {

/// Rendering is deterministic: any two texts rendered from the same tree
/// are identical.  The executable renderer's contract equates its result
/// with `doc_text` of the tree's model, so two calls on equal trees
/// cannot differ.
pub proof fn lemma_render_deterministic(d: DocumentView, t1: Seq<char>, t2: Seq<char>)
    requires
        t1 == doc_text(d),
        t2 == doc_text(d),
    ensures
        t1 == t2,
{
}

/// Deduplication invariant: however many times a binding identity occurs
/// in the bindings a tree collects, the deduplicated requirement list —
/// and with it the rendered prelude — carries it exactly once; an
/// identity that never occurs is absent.
pub proof fn lemma_binding_hoisted_once(s: Seq<BindingView>, b: BindingView)
    ensures
        s.contains(b) ==> count_of(dedup_bindings(s), b) == 1,
        !s.contains(b) ==> count_of(dedup_bindings(s), b) == 0,
{
    lemma_dedup_no_duplicates(s);
    lemma_dedup_membership(s, b);
    lemma_count_in_distinct_seq(dedup_bindings(s), b);
}

/// Order preservation, body half: a reference list's body keeps the input
/// order verbatim — line `i + 1` of the bracketed body is exactly the
/// text of reference `i`, one level below the brackets.
pub proof fn lemma_list_order_preserved(rs: Seq<ReferenceView>, d: int)
    ensures
        list_lines(rs, d).len() == rs.len() + 2,
        list_lines(rs, d)[0] == (LineView { depth: d, text: "["@ }),
        list_lines(rs, d)[rs.len() as int + 1] == (LineView { depth: d, text: "]"@ }),
        forall|i: int|
            0 <= i < rs.len() ==> list_lines(rs, d)[i + 1] == (LineView {
                depth: d + 1,
                text: ref_text(rs[i]),
            }),
{
    assert forall|i: int| 0 <= i < rs.len() implies list_lines(rs, d)[i + 1] == (LineView {
        depth: d + 1,
        text: ref_text(rs[i]),
    }) by {
        assert(list_lines(rs, d)[i + 1] == Seq::new(
            rs.len(),
            |j: int| LineView { depth: d + 1, text: ref_text(rs[j]) },
        )[i]);
    }
}

/// Order preservation, requirement half: the deduplicated requirement
/// list keeps first-occurrence order — its entries all occur in the
/// collected sequence, and they are sorted by the position of their first
/// occurrence.
pub proof fn lemma_required_bindings_order(s: Seq<BindingView>)
    ensures
        forall|i: int|
            0 <= i < dedup_bindings(s).len() ==> s.contains(#[trigger] dedup_bindings(s)[i]),
        forall|i: int, j: int|
            0 <= i < j < dedup_bindings(s).len() ==> first_index(s, dedup_bindings(s)[i])
                < first_index(s, dedup_bindings(s)[j]),
{
    lemma_dedup_first_occurrence_order(s);
}

/// No-binding case: a reference without a binding renders, as a whole
/// document, to exactly its path — a single line with no prelude anywhere.
pub proof fn lemma_no_binding_no_prelude(r: ReferenceView)
    requires
        r.binding is None,
    ensures
        doc_lines(DocumentView::Reference(r)) =~= seq![LineView { depth: 0, text: r.path }],
        doc_text(DocumentView::Reference(r)) == r.path,
{
    let d = DocumentView::Reference(r);
    assert(doc_bindings(d) =~= Seq::<BindingView>::empty());
    assert(dedup_bindings(doc_bindings(d)) =~= Seq::<BindingView>::empty());
    assert(doc_lines(d) =~= seq![LineView { depth: 0, text: r.path }]);
    assert(rendered_lines(doc_lines(d)) =~= seq![line_text(LineView { depth: 0, text: r.path })]);
    assert(line_text(LineView { depth: 0, text: r.path }) =~= r.path) by {
        assert(spaces(0) =~= Seq::<char>::empty());
        assert(Seq::<char>::empty() + r.path =~= r.path);
    }
    assert(join_lines(rendered_lines(doc_lines(d))) == r.path);
}

/// Nesting correctness: in a document of sibling blocks, a binding
/// required somewhere inside the blocks is hoisted to the document's
/// outermost level: the document is exactly the prelude followed by the
/// blocks' own body lines, and the prelude declares that binding on
/// exactly one line, whatever its occurrence count inside the tree.
pub proof fn lemma_block_binding_hoisted_to_top(bs: Seq<BlockView>, b: BindingView)
    requires
        blocks_bindings(bs).contains(b),
    ensures
        count_of(dedup_bindings(blocks_bindings(bs)), b) == 1,
        doc_lines(DocumentView::Blocks(bs)) == prelude_lines(
            dedup_bindings(blocks_bindings(bs)),
        ) + blocks_lines(bs),
        prelude_lines(dedup_bindings(blocks_bindings(bs))).len() == dedup_bindings(
            blocks_bindings(bs),
        ).len() + 3,
        forall|k: int|
            0 <= k < dedup_bindings(blocks_bindings(bs)).len() ==> prelude_lines(
                dedup_bindings(blocks_bindings(bs)),
            )[k + 1] == (LineView {
                depth: 1,
                text: prelude_text(dedup_bindings(blocks_bindings(bs))[k]),
            }),
{
    lemma_binding_hoisted_once(blocks_bindings(bs), b);
    let req = dedup_bindings(blocks_bindings(bs));
    lemma_dedup_membership(blocks_bindings(bs), b);
    assert(req.len() > 0);
    assert forall|k: int| 0 <= k < req.len() implies prelude_lines(req)[k + 1] == (LineView {
        depth: 1,
        text: prelude_text(req[k]),
    }) by {
        assert(prelude_lines(req)[k + 1] == Seq::new(
            req.len(),
            |i: int| LineView { depth: 1, text: prelude_text(req[i]) },
        )[k]);
    }
}

} // verus!
