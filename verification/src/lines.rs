//! Indented lines: the intermediate form every component renders into,
//! and the final text-assembly step that turns relative indentation depths
//! into literal whitespace.

use vstd::prelude::*;
use vstd::string::StringExecFns;

verus! {

/// One line of output at a relative indentation depth.  Components emit
/// lines without knowing their absolute depth; a parent shifts its
/// children by choosing the depth it hands them.
pub struct Line {
    pub depth: usize,
    pub text: String,
}

/// Mathematical model of a [`Line`].
pub struct LineView {
    pub depth: int,
    pub text: Seq<char>,
}

impl View for Line {
    type V = LineView;

    open spec fn view(&self) -> LineView {
        LineView { depth: self.depth as int, text: self.text@ }
    }
}

/// `n` space characters.
pub open spec fn spaces(n: nat) -> Seq<char> {
    Seq::new(n, |i: int| ' ')
}

/// The literal text of one line: four spaces per indentation level,
/// then the line's own text.
pub open spec fn line_text(l: LineView) -> Seq<char> {
    spaces((4 * l.depth) as nat) + l.text
}

/// Every line of a sequence converted to literal text.
pub open spec fn rendered_lines(ls: Seq<LineView>) -> Seq<Seq<char>> {
    ls.map_values(|l: LineView| line_text(l))
}

/// Lines joined into one text with a single newline between each pair.
pub open spec fn join_lines(ls: Seq<Seq<char>>) -> Seq<char>
    decreases ls.len(),
{
    if ls.len() == 0 {
        Seq::empty()
    } else if ls.len() == 1 {
        ls[0]
    } else {
        join_lines(ls.drop_last()) + "\n"@ + ls.last()
    }
}

/// Converts one line to its literal text, four spaces per level.
pub fn render_line(l: &Line) -> (r: String)
    ensures
        r@ == line_text(l@),
{
    let mut s = String::new();
    let mut i: usize = 0;
    proof {
        assert(s@ =~= spaces(0));
    }
    while i < l.depth
        invariant
            i <= l.depth,
            s@ == spaces((4 * i) as nat),
        decreases l.depth - i,
    {
        s.append("    ");
        proof {
            reveal_strlit("    ");
            assert(s@ =~= spaces((4 * (i + 1)) as nat));
        }
        i = i + 1;
    }
    s.append(l.text.as_str());
    s
}

/// Converts a list of lines to their literal texts.
pub fn render_all_lines(ls: &Vec<Line>) -> (r: Vec<String>)
    ensures
        r@.map_values(|s: String| s@) == rendered_lines(ls@.map_values(|l: Line| l@)),
{
    let mut r: Vec<String> = Vec::new();
    let mut i: usize = 0;
    while i < ls.len()
        invariant
            i <= ls.len(),
            r@.map_values(|s: String| s@) =~= rendered_lines(
                ls@.map_values(|l: Line| l@),
            ).take(i as int),
        decreases ls.len() - i,
    {
        let ghost prev = r@;
        let ghost target = rendered_lines(ls@.map_values(|l: Line| l@));
        let t = render_line(&ls[i]);
        proof {
            assert(target[i as int] == line_text(ls@[i as int]@));
            assert(t@ == target[i as int]);
        }
        r.push(t);
        proof {
            assert(r@.map_values(|s: String| s@) =~= prev.map_values(|s: String| s@).push(
                target[i as int],
            ));
            assert(prev.map_values(|s: String| s@).push(target[i as int]) =~= target.take(i + 1));
        }
        i = i + 1;
    }
    proof {
        assert(rendered_lines(ls@.map_values(|l: Line| l@)).take(ls@.len() as int)
            =~= rendered_lines(ls@.map_values(|l: Line| l@)));
    }
    r
}

/// Joins rendered lines with single newlines.
pub fn join(lines: &Vec<String>) -> (r: String)
    ensures
        r@ == join_lines(lines@.map_values(|s: String| s@)),
{
    let ghost ms = lines@.map_values(|s: String| s@);
    let mut r = String::new();
    let mut i: usize = 0;
    proof {
        assert(ms.take(0) =~= Seq::<Seq<char>>::empty());
    }
    while i < lines.len()
        invariant
            i <= lines.len(),
            ms == lines@.map_values(|s: String| s@),
            r@ == join_lines(ms.take(i as int)),
        decreases lines.len() - i,
    {
        if i > 0 {
            r.append("\n");
        }
        r.append(lines[i].as_str());
        proof {
            assert(ms.take(i + 1).drop_last() =~= ms.take(i as int));
            assert(ms.take(i + 1).last() == ms[i as int]);
            if i == 0 {
                assert(r@ == join_lines(ms.take(1)));
            }
        }
        i = i + 1;
    }
    proof {
        assert(ms.take(ms.len() as int) =~= ms);
    }
    r
}

} // verus!
