//! Shaped text: the runs of a row, and the text node of each run.
//!
//! A run is a stretch of consecutive glyphs of one row that one section
//! formats, and that cannot be made longer. Each run becomes one text node,
//! placed where its first glyph stands. The host has moved the glyphs to
//! where the alignment of the text puts them, so every node is anchored at
//! its start.

use crate::chars::{is_white_space, is_whitespace, push_char};
use crate::command::{FontFamily, FontFamilyView, Glyph, TextCommand, TextCommandView};
use crate::geometry::{placeholder_color, Color, DocPoint, Point, SpecPoint};
use crate::node::{
    diagnostic_views, node_views, Diagnostic, DiagnosticView, GenericFamily, NodeView,
    TextAnchor, TextNode, TextNodeView, VectorNode,
};
use vstd::prelude::*;

verus! {

/// The generic keyword that stands in for a font family.
pub open spec fn generic_family(family: FontFamilyView) -> GenericFamily {
    match family {
        FontFamilyView::Monospace => GenericFamily::Monospace,
        _ => GenericFamily::SansSerif,
    }
}

/// The colour of a run: the override where there is one, else the section's
/// own; and the fallback wherever that is the placeholder.
pub open spec fn resolved_color(
    override_color: Option<Color>,
    section_color: Color,
    fallback_color: Color,
) -> Color {
    let chosen = match override_color {
        Some(c) => c,
        None => section_color,
    };
    if chosen == placeholder_color() {
        fallback_color
    } else {
        chosen
    }
}

/// Whether a run begins at glyph `i`.
pub open spec fn run_starts_at(glyphs: Seq<Glyph>, i: int) -> bool {
    0 <= i < glyphs.len() && (i == 0 || glyphs[i - 1].section != glyphs[i].section)
}

/// Where the run that holds glyph `start` ends, looking from `from` on: the
/// first glyph at or after `from` of another section, or the end of the row.
pub open spec fn run_end(glyphs: Seq<Glyph>, start: int, from: int) -> int
    decreases glyphs.len() - from,
{
    if 0 <= start < from < glyphs.len() && glyphs[from].section == glyphs[start].section {
        run_end(glyphs, start, from + 1)
    } else {
        from
    }
}

/// The characters of the glyphs from `from` up to `to`.
pub open spec fn run_content(glyphs: Seq<Glyph>, from: int, to: int) -> Seq<char> {
    Seq::new((to - from) as nat, |k: int| glyphs[from + k].chr)
}

/// The sum of the advance widths of the glyphs from `from` up to `to`.
pub open spec fn advance_sum(glyphs: Seq<Glyph>, from: int, to: int) -> int
    decreases to - from,
{
    if to <= from {
        0
    } else {
        advance_sum(glyphs, from, to - 1) + glyphs[to - 1].size.x
    }
}

/// The width that a run is set to: the full line where it fills the line;
/// else what its glyphs advance by, less the last glyph where that is white
/// space.
pub open spec fn stretch_of(
    fills_line: bool,
    line_width: int,
    advances: int,
    trailing_space: bool,
    trailing_advance: int,
) -> int {
    if fills_line {
        line_width
    } else if trailing_space {
        advances - trailing_advance
    } else {
        advances
    }
}

/// Whether the run that ends at `end` in row `row` is stretched to the full
/// line: the text is justified, the run is the last of its row, the row does
/// not end in a line break of the text's own, and another row follows.
pub open spec fn fills_line(text: TextCommandView, row: int, end: int) -> bool {
    &&& text.justify
    &&& end == text.rows[row].glyphs.len()
    &&& !text.rows[row].ends_with_newline
    &&& row + 1 != text.rows.len()
}

/// The text node of the run that begins at glyph `start` of row `row`.
pub open spec fn run_node(
    text: TextCommandView,
    row: int,
    start: int,
    origin: Point,
) -> TextNodeView {
    let glyphs = text.rows[row].glyphs;
    let end = run_end(glyphs, start, start + 1);
    let first = glyphs[start];
    let last = glyphs[end - 1];
    let section = text.sections[first.section as int];
    TextNodeView {
        position: SpecPoint {
            x: text.anchor.x + first.pos.x - origin.x,
            y: text.anchor.y + first.pos.y - origin.y,
        },
        content: run_content(glyphs, start, end),
        font_family: generic_family(section.family),
        font_size: section.font_size as int,
        anchor: TextAnchor::Start,
        text_length: stretch_of(
            fills_line(text, row, end),
            text.line_width as int,
            advance_sum(glyphs, start, end),
            is_white_space(last.chr),
            last.size.x as int,
        ),
        fill: resolved_color(text.override_color, section.color, text.fallback_color),
        stroke: None,
    }
}

/// The nodes of the runs of row `row` that begin before glyph `n`, in order.
/// A run whose section the layout does not have yields no node.
pub open spec fn row_nodes(text: TextCommandView, row: int, origin: Point, n: nat) -> Seq<NodeView>
    decreases n,
{
    if n == 0 {
        Seq::empty()
    } else {
        let before = row_nodes(text, row, origin, (n - 1) as nat);
        let glyphs = text.rows[row].glyphs;
        if run_starts_at(glyphs, n - 1) && glyphs[n - 1].section < text.sections.len() {
            before.push(NodeView::Text(run_node(text, row, n - 1, origin)))
        } else {
            before
        }
    }
}

/// What there is to say of the run that begins at glyph `start` of row
/// `row`: that its section is missing, or that its font family is a named
/// one.
pub open spec fn run_diagnostics(
    text: TextCommandView,
    row: int,
    start: int,
) -> Seq<DiagnosticView> {
    let first = text.rows[row].glyphs[start];
    if first.section >= text.sections.len() {
        seq![DiagnosticView::MissingSection(first.section)]
    } else {
        match text.sections[first.section as int].family {
            FontFamilyView::Named(name) => seq![DiagnosticView::UnsupportedFontFamily(name)],
            _ => Seq::empty(),
        }
    }
}

/// The diagnostics of the runs of row `row` that begin before glyph `n`.
pub open spec fn row_diagnostics(text: TextCommandView, row: int, n: nat) -> Seq<DiagnosticView>
    decreases n,
{
    if n == 0 {
        Seq::empty()
    } else {
        let before = row_diagnostics(text, row, (n - 1) as nat);
        if run_starts_at(text.rows[row].glyphs, n - 1) {
            before + run_diagnostics(text, row, n - 1)
        } else {
            before
        }
    }
}

/// The nodes of the first `rows` rows, row after row.
pub open spec fn text_nodes(text: TextCommandView, origin: Point, rows: nat) -> Seq<NodeView>
    decreases rows,
{
    if rows == 0 {
        Seq::empty()
    } else {
        text_nodes(text, origin, (rows - 1) as nat) + row_nodes(
            text,
            rows - 1,
            origin,
            text.rows[rows - 1].glyphs.len(),
        )
    }
}

/// The diagnostics of the first `rows` rows, row after row.
pub open spec fn text_diagnostics(text: TextCommandView, rows: nat) -> Seq<DiagnosticView>
    decreases rows,
{
    if rows == 0 {
        Seq::empty()
    } else {
        text_diagnostics(text, (rows - 1) as nat) + row_diagnostics(
            text,
            rows - 1,
            text.rows[rows - 1].glyphs.len(),
        )
    }
}

/// The width that a run is set to, from what is known of the run.
pub fn stretch(
    fills_line: bool,
    line_width: i32,
    advances: i128,
    trailing_space: bool,
    trailing_advance: i32,
) -> (out: i128)
    requires
        i128::MIN <= advances - trailing_advance <= i128::MAX,
    ensures
        out == stretch_of(
            fills_line,
            line_width as int,
            advances as int,
            trailing_space,
            trailing_advance as int,
        ),
{
    if fills_line {
        line_width as i128
    } else if trailing_space {
        advances - trailing_advance as i128
    } else {
        advances
    }
}

/// The generic keyword that stands in for a font family.
pub fn generic_family_of(family: &FontFamily) -> (out: GenericFamily)
    ensures
        out == generic_family(family@),
{
    match family {
        FontFamily::Monospace => GenericFamily::Monospace,
        _ => GenericFamily::SansSerif,
    }
}

/// The colour of a run.
pub fn resolve_color(
    override_color: Option<Color>,
    section_color: Color,
    fallback_color: Color,
) -> (out: Color)
    ensures
        out == resolved_color(override_color, section_color, fallback_color),
{
    let chosen = match override_color {
        Some(c) => c,
        None => section_color,
    };
    if chosen == Color::placeholder() {
        fallback_color
    } else {
        chosen
    }
}

/// Every glyph from `from` up to the end of the run is of the run's section,
/// the run ends within the row, and the glyph after it is of another section.
proof fn lemma_run_end(glyphs: Seq<Glyph>, start: int, from: int)
    requires
        0 <= start < from <= glyphs.len(),
    ensures
        from <= run_end(glyphs, start, from) <= glyphs.len(),
        forall|k: int|
            from <= k < run_end(glyphs, start, from) ==> (#[trigger] glyphs[k]).section
                == glyphs[start].section,
        run_end(glyphs, start, from) < glyphs.len() ==> glyphs[run_end(glyphs, start, from)].section
            != glyphs[start].section,
    decreases glyphs.len() - from,
{
    if from < glyphs.len() && glyphs[from].section == glyphs[start].section {
        lemma_run_end(glyphs, start, from + 1);
    }
}

/// Where no run begins from glyph `m` up to glyph `n`, the nodes and the
/// diagnostics up to `n` are those up to `m`.
pub proof fn lemma_row_skip(text: TextCommandView, row: int, origin: Point, m: nat, n: nat)
    requires
        m <= n,
        forall|k: int| m <= k < n ==> !run_starts_at(text.rows[row].glyphs, k),
    ensures
        row_nodes(text, row, origin, n) == row_nodes(text, row, origin, m),
        row_diagnostics(text, row, n) == row_diagnostics(text, row, m),
    decreases n - m,
{
    if m < n {
        lemma_row_skip(text, row, origin, m, (n - 1) as nat);
    }
}

/// The views of the rows and sections of a text, one by one.
proof fn lemma_text_view(text: &TextCommand)
    ensures
        text@.rows.len() == text.rows@.len(),
        text@.sections.len() == text.sections@.len(),
        forall|i: int| 0 <= i < text.rows@.len() ==> #[trigger] text@.rows[i] == text.rows@[i]@,
        forall|i: int|
            0 <= i < text.sections@.len() ==> #[trigger] text@.sections[i] == text.sections@[i]@,
{
}

/// Reads the run that begins at glyph `start`: where it ends, its
/// characters, and the sum of its advance widths.
fn scan_run(glyphs: &Vec<Glyph>, start: usize) -> (out: (usize, String, i128))
    requires
        start < glyphs.len(),
    ensures
        out.0 == run_end(glyphs@, start as int, start + 1),
        start < out.0 <= glyphs.len(),
        out.1@ == run_content(glyphs@, start as int, out.0 as int),
        out.2 == advance_sum(glyphs@, start as int, out.0 as int),
        -(out.0 - start) * 0x8000_0000 <= out.2 <= (out.0 - start) * 0x8000_0000,
{
    let section: u32 = glyphs[start].section;
    let mut content = String::new();
    push_char(&mut content, glyphs[start].chr);
    let mut sum: i128 = glyphs[start].size.x as i128;
    let mut j: usize = start + 1;
    proof {
        reveal_with_fuel(advance_sum, 2);
        assert(content@ =~= run_content(glyphs@, start as int, j as int));
    }
    while j < glyphs.len() && glyphs[j].section == section
        invariant
            start < j <= glyphs.len(),
            section == glyphs@[start as int].section,
            run_end(glyphs@, start as int, start + 1) == run_end(glyphs@, start as int, j as int),
            content@ == run_content(glyphs@, start as int, j as int),
            sum == advance_sum(glyphs@, start as int, j as int),
            -(j - start) * 0x8000_0000 <= sum <= (j - start) * 0x8000_0000,
        decreases glyphs.len() - j,
    {
        push_char(&mut content, glyphs[j].chr);
        sum = sum + glyphs[j].size.x as i128;
        j = j + 1;
        proof {
            assert(content@ =~= run_content(glyphs@, start as int, j as int));
        }
    }
    (j, content, sum)
}

/// Converts the run that begins at glyph `start` of row `row`, and says
/// where the run ends.
fn convert_run(
    text: &TextCommand,
    row: usize,
    start: usize,
    origin: Point,
) -> (out: (usize, Option<TextNode>, Vec<Diagnostic>))
    requires
        row < text.rows.len(),
        start < text.rows[row as int].glyphs.len(),
    ensures
        out.0 == run_end(text@.rows[row as int].glyphs, start as int, start + 1),
        start < out.0 <= text.rows[row as int].glyphs.len(),
        diagnostic_views(out.2@) == run_diagnostics(text@, row as int, start as int),
        match out.1 {
            Some(node) => {
                &&& text@.rows[row as int].glyphs[start as int].section < text@.sections.len()
                &&& node@ == run_node(text@, row as int, start as int, origin)
            },
            None => text@.rows[row as int].glyphs[start as int].section >= text@.sections.len(),
        },
{
    proof {
        lemma_text_view(text);
    }
    let glyphs = &text.rows[row].glyphs;
    let (end, content, advances) = scan_run(glyphs, start);
    let first: Glyph = glyphs[start];
    let last: Glyph = glyphs[end - 1];
    let mut diagnostics: Vec<Diagnostic> = Vec::new();
    if first.section as usize >= text.sections.len() {
        diagnostics.push(Diagnostic::MissingSection(first.section));
        proof {
            assert(diagnostic_views(diagnostics@) =~= run_diagnostics(
                text@,
                row as int,
                start as int,
            ));
        }
        return (end, None, diagnostics);
    }
    let section = &text.sections[first.section as usize];
    match &section.family {
        FontFamily::Named(name) => {
            diagnostics.push(Diagnostic::UnsupportedFontFamily(name.clone()));
        },
        _ => {},
    }
    proof {
        assert(diagnostic_views(diagnostics@) =~= run_diagnostics(text@, row as int, start as int));
    }
    let fills: bool = text.justify && end == glyphs.len() && !text.rows[row].ends_with_newline
        && row + 1 != text.rows.len();
    let node = TextNode {
        position: DocPoint {
            x: text.anchor.x as i64 + first.pos.x as i64 - origin.x as i64,
            y: text.anchor.y as i64 + first.pos.y as i64 - origin.y as i64,
        },
        content,
        font_family: generic_family_of(&section.family),
        font_size: section.font_size,
        anchor: TextAnchor::Start,
        text_length: stretch(
            fills,
            text.line_width,
            advances,
            is_whitespace(last.chr),
            last.size.x,
        ),
        fill: resolve_color(text.override_color, section.color, text.fallback_color),
        stroke: None,
    };
    (end, Some(node), diagnostics)
}

/// Appends the nodes and diagnostics of row `row` to what has been gathered.
fn convert_row(
    text: &TextCommand,
    row: usize,
    origin: Point,
    nodes: &mut Vec<VectorNode>,
    diagnostics: &mut Vec<Diagnostic>,
)
    requires
        row < text.rows.len(),
    ensures
        node_views(final(nodes)@) == node_views(old(nodes)@) + row_nodes(
            text@,
            row as int,
            origin,
            text@.rows[row as int].glyphs.len(),
        ),
        diagnostic_views(final(diagnostics)@) == diagnostic_views(old(diagnostics)@)
            + row_diagnostics(text@, row as int, text@.rows[row as int].glyphs.len()),
{
    proof {
        lemma_text_view(text);
    }
    let count: usize = text.rows[row].glyphs.len();
    let ghost glyphs = text@.rows[row as int].glyphs;
    let mut start: usize = 0;
    proof {
        assert(node_views(nodes@) =~= node_views(old(nodes)@) + row_nodes(
            text@,
            row as int,
            origin,
            0,
        ));
        assert(diagnostic_views(diagnostics@) =~= diagnostic_views(old(diagnostics)@)
            + row_diagnostics(text@, row as int, 0));
    }
    while start < count
        invariant
            row < text.rows.len(),
            count == glyphs.len(),
            glyphs == text@.rows[row as int].glyphs,
            glyphs == text.rows@[row as int].glyphs@,
            start <= count,
            start < count ==> run_starts_at(glyphs, start as int),
            node_views(nodes@) == node_views(old(nodes)@) + row_nodes(
                text@,
                row as int,
                origin,
                start as nat,
            ),
            diagnostic_views(diagnostics@) == diagnostic_views(old(diagnostics)@) + row_diagnostics(
                text@,
                row as int,
                start as nat,
            ),
        decreases count - start,
    {
        let ghost nodes_before = nodes@;
        let ghost diagnostics_before = diagnostics@;
        let (end, node, mut found) = convert_run(text, row, start, origin);
        let ghost taken = node;
        proof {
            lemma_run_end(glyphs, start as int, start + 1);
            assert forall|k: int| start + 1 <= k < end implies !run_starts_at(glyphs, k) by {
                assert(glyphs[k].section == glyphs[start as int].section);
                assert(glyphs[k - 1].section == glyphs[start as int].section);
            }
            lemma_row_skip(text@, row as int, origin, (start + 1) as nat, end as nat);
        }
        match node {
            Some(n) => {
                nodes.push(VectorNode::Text(n));
            },
            None => {},
        }
        let ghost found_before = found@;
        diagnostics.append(&mut found);
        proof {
            match taken {
                Some(n) => {
                    assert(node_views(nodes@) =~= node_views(nodes_before).push(
                        NodeView::Text(n@),
                    ));
                },
                None => {},
            }
            assert(node_views(nodes@) =~= node_views(old(nodes)@) + row_nodes(
                text@,
                row as int,
                origin,
                end as nat,
            ));
            assert(diagnostic_views(diagnostics@) =~= diagnostic_views(diagnostics_before)
                + diagnostic_views(found_before));
        }
        start = end;
    }
}

/// Converts a block of text into the text nodes of its runs, row after row.
pub fn convert_text(text: &TextCommand, origin: Point) -> (out: (Vec<VectorNode>, Vec<Diagnostic>))
    ensures
        node_views(out.0@) == text_nodes(text@, origin, text@.rows.len()),
        diagnostic_views(out.1@) == text_diagnostics(text@, text@.rows.len()),
{
    proof {
        lemma_text_view(text);
    }
    let mut nodes: Vec<VectorNode> = Vec::new();
    let mut diagnostics: Vec<Diagnostic> = Vec::new();
    let mut row: usize = 0;
    proof {
        assert(node_views(nodes@) =~= text_nodes(text@, origin, 0));
        assert(diagnostic_views(diagnostics@) =~= text_diagnostics(text@, 0));
    }
    while row < text.rows.len()
        invariant
            row <= text.rows.len(),
            text@.rows.len() == text.rows@.len(),
            node_views(nodes@) == text_nodes(text@, origin, row as nat),
            diagnostic_views(diagnostics@) == text_diagnostics(text@, row as nat),
        decreases text.rows.len() - row,
    {
        convert_row(text, row, origin, &mut nodes, &mut diagnostics);
        row = row + 1;
    }
    (nodes, diagnostics)
}

} // verus!
