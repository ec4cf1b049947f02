//! Laying sanitized lines out as an SVG document.

use vstd::prelude::*;
use crate::sanitize::{is_sanitized, SanitizedText};
use crate::text::{
    count_of, free_of, lemma_count_of_concat, lemma_count_of_free, line_views,
};

verus! {

/// What every document starts with: the XML declaration, the canvas of
/// 250 by 250 pixels, and the opening of the one text block.
pub const SVG_OPEN: &'static str =
    "<?xml version=\"1.0\" standalone=\"yes\"?>\n<svg height=\"250px\" width=\"250px\" xmlns=\"http://www.w3.org/2000/svg\" version=\"1.1\">\n<text x=\"0\" y=\"15\" font-family=\"monospace\" fill=\"green\" xml:space=\"preserve\">";

/// What every document ends with.
pub const SVG_CLOSE: &'static str = "</text>\n</svg>";

/// What precedes a line: a span that starts at the left edge, one line
/// height below the line before it.
pub const TSPAN_OPEN: &'static str = "<tspan x=\"0\" dy=\"1.2em\">";

/// What follows a line.
pub const TSPAN_CLOSE: &'static str = "</tspan>";

/// One line inside its span.
pub open spec fn tspan(line: Seq<char>) -> Seq<char> {
    TSPAN_OPEN@ + line + TSPAN_CLOSE@
}

/// The spans of all the lines, one after the other.
pub open spec fn tspans(lines: Seq<Seq<char>>) -> Seq<char>
    decreases lines.len(),
{
    if lines.len() == 0 {
        Seq::<char>::empty()
    } else {
        tspans(lines.drop_last()) + tspan(lines.last())
    }
}

/// The whole document for the given lines.
pub open spec fn svg_document(lines: Seq<Seq<char>>) -> Seq<char> {
    SVG_OPEN@ + tspans(lines) + SVG_CLOSE@
}

/// Renders the lines as a standalone SVG document with one span per
/// line. The lines are placed as they are: nothing is escaped or decoded
/// here.
pub fn render_svg(text: &SanitizedText) -> (doc: String)
    ensures
        doc@ == svg_document(text@),
{
    let lines = text.lines();
    let mut doc = String::from_str(SVG_OPEN);
    let mut i: usize = 0;
    while i < lines.len()
        invariant
            i <= lines.len(),
            doc@ == SVG_OPEN@ + tspans(line_views(lines@).take(i as int)),
        decreases lines.len() - i,
    {
        proof {
            let upto = line_views(lines@).take(i + 1);
            assert(upto.drop_last() =~= line_views(lines@).take(i as int));
            assert(upto.last() == lines@[i as int]@);
        }
        doc.append(TSPAN_OPEN);
        doc.append(lines[i].as_str());
        doc.append(TSPAN_CLOSE);
        assert(doc@ =~= SVG_OPEN@ + tspans(line_views(lines@).take(i + 1)));
        i += 1;
    }
    assert(line_views(lines@).take(i as int) =~= line_views(lines@));
    doc.append(SVG_CLOSE);
    doc
}

/// In the spans of lines that do not hold `c`, `c` occurs only in the
/// tags.
pub proof fn lemma_count_of_tspans(lines: Seq<Seq<char>>, c: char)
    requires
        forall|i: int| 0 <= i < lines.len() ==> free_of(#[trigger] lines[i], c),
    ensures
        count_of(tspans(lines), c) == lines.len() * (count_of(TSPAN_OPEN@, c) + count_of(
            TSPAN_CLOSE@,
            c,
        )),
    decreases lines.len(),
{
    let per_line = count_of(TSPAN_OPEN@, c) + count_of(TSPAN_CLOSE@, c);
    if lines.len() > 0 {
        let init = lines.drop_last();
        lemma_count_of_tspans(init, c);
        lemma_count_of_free(lines.last(), c);
        lemma_count_of_concat(TSPAN_OPEN@, lines.last(), c);
        lemma_count_of_concat(TSPAN_OPEN@ + lines.last(), TSPAN_CLOSE@, c);
        lemma_count_of_concat(tspans(init), tspan(lines.last()), c);
        assert(init.len() * per_line + per_line == lines.len() * per_line) by (nonlinear_arith)
            requires
                init.len() + 1 == lines.len(),
        ;
    }
}

/// Sanitized text adds no angle bracket to a document: `<` and `>` occur
/// in it exactly as often as in the fixed markup around the lines.
pub proof fn lemma_document_markup_is_fixed(lines: Seq<Seq<char>>, c: char)
    requires
        is_sanitized(lines),
        c == '<' || c == '>',
    ensures
        count_of(svg_document(lines), c) == count_of(SVG_OPEN@, c) + lines.len() * (count_of(
            TSPAN_OPEN@,
            c,
        ) + count_of(TSPAN_CLOSE@, c)) + count_of(SVG_CLOSE@, c),
{
    lemma_count_of_tspans(lines, c);
    lemma_count_of_concat(SVG_OPEN@, tspans(lines), c);
    lemma_count_of_concat(SVG_OPEN@ + tspans(lines), SVG_CLOSE@, c);
}

} // verus!
