//! From the nodes of a document to the elements of the `svg` crate, and the
//! two operations that a host calls: [`snapshot`] and [`capture_scope`].

use crate::capture::{
    frame_commands, mark, marks_of, scope_commands, scope_document, scoped_of, snapshot_document,
    snapshot_of, Export, LayerMark,
};
use crate::clip::{group, grouped_diagnostics, groups_of, Grouping};
use crate::command::{clipped_views, ClippedDrawCommand, DrawCommand, Frame, FrameView};
use crate::convert::{convert, diagnostics_of, node_of, Conversion};
use crate::decimal::{decimal_text, opacity, opacity_text, write_decimal};
use crate::geometry::{visible_stroke, Color, DocRect, Point, SpecPoint, SpecRect, Stroke};
use crate::markup::{
    bare, circle_new, clip_path_new, data_close, data_line_to, data_move_to, data_new, data_steps,
    document_add, document_markup, document_new, document_set, element_add,
    element_markup, element_set, element_set_data, group_new, line_new, path_new, path_text,
    rectangle_new,
    stored, text_new, with_attribute, with_child, Markup, MarkupChild,
};
use crate::node::{
    diagnostic_views, group_views, node_views, CircleNode, CircleView, ClipGroup, ClipGroupView,
    Diagnostic, DocumentView, GenericFamily, LineNode, LineView, NodeView, PathNode,
    PathSegment, PathView, RectNode, RectView, SegmentView, TextAnchor, TextNode,
    TextNodeView, VectorDocument, VectorNode,
};
use svg::node::element::path::Data;
use svg::node::element::{Element, SVG};
use vstd::prelude::*;
use vstd::string::StringExecFns;

verus! {

/// A colour as the value of a paint attribute: its red, green and blue.
pub open spec fn rgb_text(color: Color) -> Seq<char> {
    "rgb("@ + decimal_text(color.r as int) + ", "@ + decimal_text(color.g as int) + ", "@
        + decimal_text(color.b as int) + ")"@
}

/// `markup` with a whole number as the value of an attribute.
pub open spec fn with_number(markup: Markup, name: Seq<char>, value: int) -> Markup {
    with_attribute(markup, name, decimal_text(value))
}

/// `markup` filled with a colour: the colour, and where something shows
/// through it, its opacity, which is its alpha.
pub open spec fn filled(markup: Markup, color: Color) -> Markup {
    let painted = with_attribute(markup, "fill"@, rgb_text(color));
    if color.opaque() {
        painted
    } else {
        with_attribute(painted, "fill-opacity"@, opacity_text(color.a))
    }
}

/// `markup` with an outline of that width and colour.
pub open spec fn stroked(markup: Markup, stroke: Stroke) -> Markup {
    with_attribute(
        with_number(markup, "stroke-width"@, stroke.width as int),
        "stroke"@,
        rgb_text(stroke.color),
    )
}

/// `markup` with the outline that is drawn, if one is.
pub open spec fn outlined(markup: Markup, stroke: Option<Stroke>) -> Markup {
    match stroke {
        Some(s) => stroked(markup, s),
        None => markup,
    }
}

/// The outline of a node as it is drawn: none where the node has none, and
/// none where the one it has is of no width or of the transparent colour.
pub open spec fn drawn_outline(stroke: Option<Stroke>) -> Option<Stroke> {
    match stroke {
        Some(s) => visible_stroke(s),
        None => None,
    }
}

/// The keyword of a generic font family.
pub open spec fn family_keyword(family: GenericFamily) -> Seq<char> {
    match family {
        GenericFamily::SansSerif => "sans-serif"@,
        GenericFamily::Monospace => "monospace"@,
    }
}

/// The keyword of a text anchor.
pub open spec fn anchor_keyword(anchor: TextAnchor) -> Seq<char> {
    match anchor {
        TextAnchor::Start => "start"@,
        TextAnchor::Middle => "middle"@,
        TextAnchor::End => "end"@,
    }
}

/// A step as path data holds it.
pub open spec fn stored_step(step: SegmentView) -> SegmentView {
    match step {
        SegmentView::MoveTo(p) => SegmentView::MoveTo(SpecPoint { x: stored(p.x), y: stored(p.y) }),
        SegmentView::LineTo(p) => SegmentView::LineTo(SpecPoint { x: stored(p.x), y: stored(p.y) }),
        SegmentView::Close => SegmentView::Close,
    }
}

/// The element of a path: its paint, and its steps as path data.
pub open spec fn path_markup(path: PathView) -> Markup {
    with_attribute(
        outlined(filled(bare("path"@), path.fill), drawn_outline(path.stroke)),
        "d"@,
        path_text(path.segments.map_values(|step: SegmentView| stored_step(step))),
    )
}

/// The element of a circle: centre, radius and paint.
pub open spec fn circle_markup(circle: CircleView) -> Markup {
    outlined(
        filled(
            with_number(
                with_number(
                    with_number(bare("circle"@), "cx"@, circle.center.x),
                    "cy"@,
                    circle.center.y,
                ),
                "r"@,
                circle.radius,
            ),
            circle.fill,
        ),
        drawn_outline(circle.stroke),
    )
}

/// A `rect` element of that corner and size.
pub open spec fn region_markup(region: SpecRect) -> Markup {
    with_number(
        with_number(
            with_number(with_number(bare("rect"@), "x"@, region.x), "y"@, region.y),
            "width"@,
            region.width,
        ),
        "height"@,
        region.height,
    )
}

/// The element of a rectangle: corner, size, the one rounding on both
/// axes, and paint.
pub open spec fn rect_markup(rect: RectView) -> Markup {
    outlined(
        filled(
            with_number(
                with_number(region_markup(rect.region), "rx"@, rect.corner_radius),
                "ry"@,
                rect.corner_radius,
            ),
            rect.fill,
        ),
        drawn_outline(rect.stroke),
    )
}

/// The element of a line: its two ends and its outline, and no fill.
pub open spec fn line_markup(line: LineView) -> Markup {
    outlined(
        with_number(
            with_number(
                with_number(with_number(bare("line"@), "x1"@, line.from.x), "y1"@, line.from.y),
                "x2"@,
                line.to.x,
            ),
            "y2"@,
            line.to.y,
        ),
        drawn_outline(line.stroke),
    )
}

/// The element of a run of text: the text as its child; position, font,
/// anchor and width; and paint.
pub open spec fn text_markup(text: TextNodeView) -> Markup {
    let placed = with_number(
        with_number(
            with_child(bare("text"@), MarkupChild::Text(text.content)),
            "x"@,
            text.position.x,
        ),
        "y"@,
        text.position.y,
    );
    let set = with_attribute(
        with_attribute(
            with_number(placed, "font-size"@, text.font_size),
            "font-family"@,
            family_keyword(text.font_family),
        ),
        "text-anchor"@,
        anchor_keyword(text.anchor),
    );
    outlined(
        filled(with_number(set, "textLength"@, text.text_length), text.fill),
        drawn_outline(text.stroke),
    )
}

/// The element that shows a node.
pub open spec fn node_markup(node: NodeView) -> Markup
    decreases node,
{
    match node {
        NodeView::Empty => bare("path"@),
        NodeView::Group(children) => Markup {
            children: child_markups(children),
            ..bare("g"@)
        },
        NodeView::Path(path) => path_markup(path),
        NodeView::Circle(circle) => circle_markup(circle),
        NodeView::Rect(rect) => rect_markup(rect),
        NodeView::Line(line) => line_markup(line),
        NodeView::Text(text) => text_markup(text),
    }
}

/// The elements that show the nodes, one for each and in their order.
pub open spec fn child_markups(children: Seq<NodeView>) -> Seq<MarkupChild>
    decreases children,
{
    Seq::new(
        children.len(),
        |i: int|
            if 0 <= i < children.len() {
                MarkupChild::Element(node_markup(children[i]))
            } else {
                MarkupChild::Text(Seq::empty())
            },
    )
}

/// The name of the clip region of the group of that number.
pub open spec fn clip_name(id: int) -> Seq<char> {
    "clip_rect_"@ + decimal_text(id)
}

/// The element of a clip group: a `g` that refers to its clip region by
/// name, holds the region as its first child, and then its nodes.
pub open spec fn clip_group_markup(group: ClipGroupView) -> Markup {
    let region = with_child(
        with_attribute(bare("clipPath"@), "id"@, clip_name(group.id)),
        MarkupChild::Element(region_markup(group.region)),
    );
    Markup {
        tag: "g"@,
        attributes: Map::empty().insert("clip-path"@, "url(#"@ + clip_name(group.id) + ")"@),
        children: seq![MarkupChild::Element(region)] + child_markups(group.children),
    }
}

/// The element that holds the clip groups, one after the other.
pub open spec fn groups_markup(groups: Seq<ClipGroupView>) -> Markup {
    Markup {
        children: Seq::new(
            groups.len(),
            |i: int| MarkupChild::Element(clip_group_markup(groups[i])),
        ),
        ..bare("g"@)
    }
}

/// A view box as the value of its attribute: corner, then size.
pub open spec fn view_box_text(view_box: SpecRect) -> Seq<char> {
    decimal_text(view_box.x) + " "@ + decimal_text(view_box.y) + " "@ + decimal_text(
        view_box.width,
    ) + " "@ + decimal_text(view_box.height)
}

/// The root element of a document: its view box, and one element that
/// holds its clip groups.
pub open spec fn document_markup_of(document: DocumentView) -> Markup {
    with_child(
        with_attribute(
            with_attribute(bare("svg"@), "xmlns"@, "http://www.w3.org/2000/svg"@),
            "viewBox"@,
            view_box_text(document.view_box),
        ),
        MarkupChild::Element(groups_markup(document.groups)),
    )
}

/// A colour as the value of a paint attribute.
pub fn color32_rgba(color: Color) -> (out: String)
    ensures
        out@ == rgb_text(color),
{
    let mut out = String::from_str("rgb(");
    write_decimal(&mut out, color.r as i128);
    out.append(", ");
    write_decimal(&mut out, color.g as i128);
    out.append(", ");
    write_decimal(&mut out, color.b as i128);
    out.append(")");
    proof {
        assert(out@ =~= rgb_text(color));
    }
    out
}

/// Assigns a whole number to an attribute.
fn set_number(element: Element, name: &str, value: i128) -> (out: Element)
    ensures
        element_markup(out) == with_number(element_markup(element), name@, value as int),
{
    let text = crate::decimal::decimal(value);
    element_set(element, name, text.as_str())
}

/// Fills the element with a colour.
pub fn fill(element: Element, color: Color) -> (out: Element)
    ensures
        element_markup(out) == filled(element_markup(element), color),
{
    let paint = color32_rgba(color);
    let painted = element_set(element, "fill", paint.as_str());
    if color.is_opaque() {
        painted
    } else {
        let level = opacity(color.a);
        element_set(painted, "fill-opacity", level.as_str())
    }
}

/// Outlines the element in that width and colour. A stroke of no width or of
/// the transparent colour is not drawn, and leaves the element as it is.
pub fn stroke(element: Element, pen: Stroke) -> (out: Element)
    ensures
        element_markup(out) == outlined(element_markup(element), visible_stroke(pen)),
{
    match pen.visible() {
        Some(seen) => {
            let widened = set_number(element, "stroke-width", seen.width as i128);
            let paint = color32_rgba(seen.color);
            element_set(widened, "stroke", paint.as_str())
        },
        None => element,
    }
}

/// Outlines the element where the node has an outline that is drawn.
fn outline(element: Element, stroke_of_node: Option<Stroke>) -> (out: Element)
    ensures
        element_markup(out) == outlined(
            element_markup(element),
            drawn_outline(stroke_of_node),
        ),
{
    match stroke_of_node {
        Some(s) => stroke(element, s),
        None => element,
    }
}

/// The path data of the given steps.
fn path_data(segments: &Vec<PathSegment>) -> (out: Data)
    ensures
        data_steps(out) == segments@.map_values(|s: PathSegment| s@).map_values(
            |step: SegmentView| stored_step(step),
        ),
{
    let ghost steps = segments@.map_values(|s: PathSegment| s@).map_values(
        |step: SegmentView| stored_step(step),
    );
    let mut data = data_new();
    let mut i: usize = 0;
    proof {
        assert(data_steps(data) =~= steps.take(0));
    }
    while i < segments.len()
        invariant
            i <= segments.len(),
            steps == segments@.map_values(|s: PathSegment| s@).map_values(
                |step: SegmentView| stored_step(step),
            ),
            data_steps(data) == steps.take(i as int),
        decreases segments.len() - i,
    {
        data = match segments[i] {
            PathSegment::MoveTo(p) => data_move_to(data, p.x, p.y),
            PathSegment::LineTo(p) => data_line_to(data, p.x, p.y),
            PathSegment::Close => data_close(data),
        };
        proof {
            assert(steps.take(i + 1) =~= steps.take(i as int).push(steps[i as int]));
        }
        i = i + 1;
    }
    proof {
        assert(steps.take(i as int) =~= steps);
    }
    data
}

/// The element of a path.
fn path_to_svg(path: &PathNode) -> (out: Element)
    ensures
        element_markup(out) == path_markup(path@),
{
    let element = outline(fill(path_new(), path.fill), path.stroke);
    element_set_data(element, "d", path_data(&path.segments))
}

/// The element of a circle.
fn circle_to_svg(circle: &CircleNode) -> (out: Element)
    ensures
        element_markup(out) == circle_markup(circle@),
{
    let element = set_number(circle_new(), "cx", circle.center.x as i128);
    let element = set_number(element, "cy", circle.center.y as i128);
    let element = set_number(element, "r", circle.radius as i128);
    outline(fill(element, circle.fill), circle.stroke)
}

/// A `rect` element of that corner and size.
fn region_to_svg(region: &DocRect) -> (out: Element)
    ensures
        element_markup(out) == region_markup(region@),
{
    let element = set_number(rectangle_new(), "x", region.x as i128);
    let element = set_number(element, "y", region.y as i128);
    let element = set_number(element, "width", region.width as i128);
    set_number(element, "height", region.height as i128)
}

/// The element of a rectangle.
fn rect_to_svg(rect: &RectNode) -> (out: Element)
    ensures
        element_markup(out) == rect_markup(rect@),
{
    let element = region_to_svg(&rect.region);
    let element = set_number(element, "rx", rect.corner_radius as i128);
    let element = set_number(element, "ry", rect.corner_radius as i128);
    outline(fill(element, rect.fill), rect.stroke)
}

/// The element of a line.
fn line_to_svg(line: &LineNode) -> (out: Element)
    ensures
        element_markup(out) == line_markup(line@),
{
    let element = set_number(line_new(), "x1", line.from.x as i128);
    let element = set_number(element, "y1", line.from.y as i128);
    let element = set_number(element, "x2", line.to.x as i128);
    let element = set_number(element, "y2", line.to.y as i128);
    outline(element, line.stroke)
}

/// The keyword of a generic font family.
pub fn family_name(family: GenericFamily) -> (out: &'static str)
    ensures
        out@ == family_keyword(family),
{
    match family {
        GenericFamily::SansSerif => "sans-serif",
        GenericFamily::Monospace => "monospace",
    }
}

/// The keyword of a text anchor.
pub fn anchor_name(anchor: TextAnchor) -> (out: &'static str)
    ensures
        out@ == anchor_keyword(anchor),
{
    match anchor {
        TextAnchor::Start => "start",
        TextAnchor::Middle => "middle",
        TextAnchor::End => "end",
    }
}

/// The element of a run of text.
fn text_to_svg(text: &TextNode) -> (out: Element)
    ensures
        element_markup(out) == text_markup(text@),
{
    let element = text_new(text.content.as_str());
    let element = set_number(element, "x", text.position.x as i128);
    let element = set_number(element, "y", text.position.y as i128);
    let element = set_number(element, "font-size", text.font_size as i128);
    let element = element_set(element, "font-family", family_name(text.font_family));
    let element = element_set(element, "text-anchor", anchor_name(text.anchor));
    let element = set_number(element, "textLength", text.text_length);
    outline(fill(element, text.fill), text.stroke)
}

/// Adds the elements of `nodes` to `element`, one after the other.
fn add_nodes(element: Element, nodes: &Vec<VectorNode>) -> (out: Element)
    ensures
        element_markup(out) == (Markup {
            children: element_markup(element).children + child_markups(node_views(nodes@)),
            ..element_markup(element)
        }),
    decreases nodes, 0nat,
{
    let ghost start = element_markup(element);
    let ghost views = node_views(nodes@);
    let mut element = element;
    let mut i: usize = 0;
    proof {
        assert(start.children =~= start.children + child_markups(views).take(0));
    }
    while i < nodes.len()
        invariant
            views == node_views(nodes@),
            i <= nodes.len(),
            element_markup(element) == (Markup {
                children: start.children + child_markups(views).take(i as int),
                ..start
            }),
        decreases nodes.len() - i,
    {
        let child = node_to_svg(&nodes[i]);
        element = element_add(element, child);
        proof {
            assert(child_markups(views).take(i + 1) =~= child_markups(views).take(i as int).push(
                MarkupChild::Element(node_markup(views[i as int])),
            ));
            assert(element_markup(element).children =~= start.children + child_markups(views).take(
                i + 1,
            ));
        }
        i = i + 1;
    }
    proof {
        assert(child_markups(views).take(i as int) =~= child_markups(views));
    }
    element
}

/// The element that shows a node.
pub fn node_to_svg(node: &VectorNode) -> (out: Element)
    ensures
        element_markup(out) == node_markup(node@),
    decreases node, 1nat,
{
    match node {
        VectorNode::Empty => path_new(),
        VectorNode::Group(children) => {
            proof {
                assert(decreases_to!(*node => node->Group_0));
            }
            let out = add_nodes(group_new(), children);
            proof {
                assert(element_markup(out).children =~= child_markups(node_views(children@)));
            }
            out
        },
        VectorNode::Path(path) => path_to_svg(path),
        VectorNode::Circle(circle) => circle_to_svg(circle),
        VectorNode::Rect(rect) => rect_to_svg(rect),
        VectorNode::Line(line) => line_to_svg(line),
        VectorNode::Text(text) => text_to_svg(text),
    }
}

/// The name of the clip region of the group of that number.
pub fn clip_name_of(id: usize) -> (out: String)
    ensures
        out@ == clip_name(id as int),
{
    let mut out = String::from_str("clip_rect_");
    write_decimal(&mut out, id as i128);
    out
}

/// The element of a clip group.
pub fn clip_group_to_svg(group: &ClipGroup) -> (out: Element)
    ensures
        element_markup(out) == clip_group_markup(group@),
{
    let name = clip_name_of(group.id);
    let mut reference = String::from_str("url(#");
    reference.append(name.as_str());
    reference.append(")");
    let region = element_add(
        element_set(clip_path_new(), "id", name.as_str()),
        region_to_svg(&group.region),
    );
    let element = element_add(element_set(group_new(), "clip-path", reference.as_str()), region);
    let out = add_nodes(element, &group.children);
    proof {
        assert(element_markup(out).attributes =~= clip_group_markup(group@).attributes);
        assert(element_markup(out).children =~= clip_group_markup(group@).children);
    }
    out
}

/// The element that holds the clip groups, one after the other.
pub fn groups_to_svg(groups: &Vec<ClipGroup>) -> (out: Element)
    ensures
        element_markup(out) == groups_markup(group_views(groups@)),
{
    let ghost views = group_views(groups@);
    let ghost all = groups_markup(views).children;
    let mut element = group_new();
    let mut i: usize = 0;
    proof {
        assert(element_markup(element).children =~= all.take(0));
    }
    while i < groups.len()
        invariant
            views == group_views(groups@),
            all == groups_markup(views).children,
            i <= groups.len(),
            element_markup(element) == (Markup { children: all.take(i as int), ..bare("g"@) }),
        decreases groups.len() - i,
    {
        let child = clip_group_to_svg(&groups[i]);
        element = element_add(element, child);
        proof {
            assert(views[i as int] == groups@[i as int]@);
            assert(all.take(i + 1) =~= all.take(i as int).push(all[i as int]));
        }
        i = i + 1;
    }
    proof {
        assert(all.take(i as int) =~= all);
    }
    element
}

/// A view box as the value of its attribute.
pub fn view_box_value(view_box: &DocRect) -> (out: String)
    ensures
        out@ == view_box_text(view_box@),
{
    let mut out = String::new();
    write_decimal(&mut out, view_box.x as i128);
    out.append(" ");
    write_decimal(&mut out, view_box.y as i128);
    out.append(" ");
    write_decimal(&mut out, view_box.width as i128);
    out.append(" ");
    write_decimal(&mut out, view_box.height as i128);
    proof {
        assert(out@ =~= view_box_text(view_box@));
    }
    out
}

/// The document as the `svg` crate holds it.
pub fn document_to_svg(document: &VectorDocument) -> (out: SVG)
    ensures
        document_markup(out) == document_markup_of(document@),
{
    let value = view_box_value(&document.view_box);
    document_add(
        document_set(document_new(), "viewBox", value.as_str()),
        groups_to_svg(&document.groups),
    )
}

/// An element, and what there is to say of how it came about.
#[derive(Debug)]
pub struct Drawn {
    pub element: Element,
    pub diagnostics: Vec<Diagnostic>,
}

/// A document, and what there is to say of how it came about.
#[derive(Debug)]
pub struct Picture {
    pub document: SVG,
    pub diagnostics: Vec<Diagnostic>,
}

/// The element that shows one draw command.
pub fn shape_to_path(shape: &DrawCommand) -> (out: Drawn)
    ensures
        element_markup(out.element) == node_markup(node_of(shape@, Point::zero())),
        diagnostic_views(out.diagnostics@) == diagnostics_of(shape@),
        out.diagnostics@.len() == diagnostics_of(shape@).len(),
{
    let Conversion { node, diagnostics } = convert(shape);
    Drawn { element: node_to_svg(&node), diagnostics }
}

/// The element that shows a stream of clipped commands: one clip group for
/// each run of commands under one clip rectangle.
pub fn clipped_shapes_to_group(shapes: &Vec<ClippedDrawCommand>) -> (out: Drawn)
    ensures
        element_markup(out.element) == groups_markup(
            groups_of(clipped_views(shapes@), Point::zero(), shapes@.len()),
        ),
        diagnostic_views(out.diagnostics@) == grouped_diagnostics(
            clipped_views(shapes@),
            shapes@.len(),
        ),
{
    let Grouping { groups, diagnostics } = group(shapes);
    Drawn { element: groups_to_svg(&groups), diagnostics }
}

/// The whole frame as a document. Its view box is the screen, and nothing
/// is moved.
pub fn snapshot(frame: &Frame) -> (out: Picture)
    ensures
        document_markup(out.document) == document_markup_of(snapshot_of(frame@)),
        diagnostic_views(out.diagnostics@) == grouped_diagnostics(
            frame_commands(frame@),
            frame_commands(frame@).len(),
        ),
{
    let Export { document, diagnostics } = snapshot_document(frame);
    Picture { document: document_to_svg(&document), diagnostics }
}

/// What `capture_scope` owes for each answer of its callback: nothing where
/// the answer is no; else the document of what the frame has gained since
/// the marks.
pub open spec fn scope_outcome(
    marks: Seq<LayerMark>,
    after: FrameView,
    do_capture: bool,
    out: Option<Picture>,
) -> bool {
    &&& do_capture <==> out is Some
    &&& do_capture ==> document_markup(out->0.document) == document_markup_of(
        scoped_of(marks, after),
    )
    &&& do_capture ==> diagnostic_views(out->0.diagnostics@) == grouped_diagnostics(
        scope_commands(marks, after),
        scope_commands(marks, after).len(),
    )
}

/// The document of what `after` has gained since the marks were taken, or
/// nothing where no capture is wanted.
pub fn scope_picture(
    marks: &Vec<LayerMark>,
    after: &Frame,
    do_capture: bool,
) -> (out: Option<Picture>)
    ensures
        scope_outcome(marks@, after@, do_capture, out),
{
    match scope_document(marks, after, do_capture) {
        Some(export) => {
            let Export { document, diagnostics } = export;
            Some(Picture { document: document_to_svg(&document), diagnostics })
        },
        None => None,
    }
}

/// Lets `callback` render into the frame, and where it answers yes, returns
/// what it has rendered as a document of its own. The callback's rendering
/// stays in the frame whatever it answers.
pub fn capture_scope<F: FnOnce(&mut Frame) -> bool>(
    target: &mut Frame,
    callback: F,
) -> (out: Option<Picture>)
    requires
        forall|frame: &mut Frame| *frame == *old(target) ==> #[trigger] callback.requires((frame,)),
    ensures
        exists|frame: &mut Frame, do_capture: bool|
            *frame == *old(target) && *final(frame) == *final(target)
                && #[trigger] callback.ensures((frame,), do_capture) && scope_outcome(
                marks_of(old(target)@),
                final(target)@,
                do_capture,
                out,
            ),
{
    let marks = mark(target);
    let do_capture = callback(target);
    scope_picture(&marks, target, do_capture)
}

} // verus!
