//! What a conversion yields: the nodes of the vector document, the document
//! itself, and the notes on what could only be approximated.

use crate::decimal::{decimal_text, write_decimal};
use crate::geometry::{Color, DocPoint, DocRect, SpecPoint, SpecRect, Stroke};
use vstd::prelude::*;
use vstd::string::StringExecFns;

verus! {

/// The generic font keyword that a text node is set in.
#[derive(Clone, Copy, Debug, PartialEq, Eq, Structural)]
pub enum GenericFamily {
    SansSerif,
    Monospace,
}

/// Which point of a text node its position names.
#[derive(Clone, Copy, Debug, PartialEq, Eq, Structural)]
pub enum TextAnchor {
    Start,
    Middle,
    End,
}

/// One step of a path.
#[derive(Clone, Copy, Debug, PartialEq, Eq, Structural)]
pub enum PathSegment {
    MoveTo(DocPoint),
    LineTo(DocPoint),
    Close,
}

/// The mathematical value of a [`PathSegment`].
pub enum SegmentView {
    MoveTo(SpecPoint),
    LineTo(SpecPoint),
    Close,
}

impl View for PathSegment {
    type V = SegmentView;

    open spec fn view(&self) -> SegmentView {
        match self {
            PathSegment::MoveTo(p) => SegmentView::MoveTo(p@),
            PathSegment::LineTo(p) => SegmentView::LineTo(p@),
            PathSegment::Close => SegmentView::Close,
        }
    }
}

/// A path: its steps, its fill, and its outline where it has one.
#[derive(Debug, PartialEq, Eq)]
pub struct PathNode {
    pub segments: Vec<PathSegment>,
    pub fill: Color,
    pub stroke: Option<Stroke>,
}

/// The mathematical value of a [`PathNode`].
pub struct PathView {
    pub segments: Seq<SegmentView>,
    pub fill: Color,
    pub stroke: Option<Stroke>,
}

impl View for PathNode {
    type V = PathView;

    open spec fn view(&self) -> PathView {
        PathView {
            segments: self.segments@.map_values(|s: PathSegment| s@),
            fill: self.fill,
            stroke: self.stroke,
        }
    }
}

/// A circle.
#[derive(Debug, PartialEq, Eq)]
pub struct CircleNode {
    pub center: DocPoint,
    pub radius: i32,
    pub fill: Color,
    pub stroke: Option<Stroke>,
}

/// The mathematical value of a [`CircleNode`].
pub struct CircleView {
    pub center: SpecPoint,
    pub radius: int,
    pub fill: Color,
    pub stroke: Option<Stroke>,
}

impl View for CircleNode {
    type V = CircleView;

    open spec fn view(&self) -> CircleView {
        CircleView {
            center: self.center@,
            radius: self.radius as int,
            fill: self.fill,
            stroke: self.stroke,
        }
    }
}

/// A rectangle whose four corners are rounded alike.
#[derive(Debug, PartialEq, Eq)]
pub struct RectNode {
    pub region: DocRect,
    /// The one radius that rounds all four corners.
    pub corner_radius: i32,
    pub fill: Color,
    pub stroke: Option<Stroke>,
}

/// The mathematical value of a [`RectNode`].
pub struct RectView {
    pub region: SpecRect,
    pub corner_radius: int,
    pub fill: Color,
    pub stroke: Option<Stroke>,
}

impl View for RectNode {
    type V = RectView;

    open spec fn view(&self) -> RectView {
        RectView {
            region: self.region@,
            corner_radius: self.corner_radius as int,
            fill: self.fill,
            stroke: self.stroke,
        }
    }
}

/// A straight line, which has an outline and no fill.
#[derive(Debug, PartialEq, Eq)]
pub struct LineNode {
    pub from: DocPoint,
    pub to: DocPoint,
    pub stroke: Option<Stroke>,
}

/// The mathematical value of a [`LineNode`].
pub struct LineView {
    pub from: SpecPoint,
    pub to: SpecPoint,
    pub stroke: Option<Stroke>,
}

impl View for LineNode {
    type V = LineView;

    open spec fn view(&self) -> LineView {
        LineView { from: self.from@, to: self.to@, stroke: self.stroke }
    }
}

/// One run of text in one format.
#[derive(Debug, PartialEq, Eq)]
pub struct TextNode {
    pub position: DocPoint,
    pub content: String,
    pub font_family: GenericFamily,
    pub font_size: i32,
    pub anchor: TextAnchor,
    /// The width that the rendered run is stretched or squeezed to.
    pub text_length: i128,
    pub fill: Color,
    pub stroke: Option<Stroke>,
}

/// The mathematical value of a [`TextNode`].
pub struct TextNodeView {
    pub position: SpecPoint,
    pub content: Seq<char>,
    pub font_family: GenericFamily,
    pub font_size: int,
    pub anchor: TextAnchor,
    pub text_length: int,
    pub fill: Color,
    pub stroke: Option<Stroke>,
}

impl View for TextNode {
    type V = TextNodeView;

    open spec fn view(&self) -> TextNodeView {
        TextNodeView {
            position: self.position@,
            content: self.content@,
            font_family: self.font_family,
            font_size: self.font_size as int,
            anchor: self.anchor,
            text_length: self.text_length as int,
            fill: self.fill,
            stroke: self.stroke,
        }
    }
}

/// One node of the vector document.
#[derive(Debug, PartialEq, Eq)]
pub enum VectorNode {
    /// Holds a place and shows nothing.
    Empty,
    /// Shows its children, first to last.
    Group(Vec<VectorNode>),
    Path(PathNode),
    Circle(CircleNode),
    Rect(RectNode),
    Line(LineNode),
    Text(TextNode),
}

/// The mathematical value of a [`VectorNode`].
pub enum NodeView {
    Empty,
    Group(Seq<NodeView>),
    Path(PathView),
    Circle(CircleView),
    Rect(RectView),
    Line(LineView),
    Text(TextNodeView),
}

/// The mathematical value of a node.
pub open spec fn node_view(node: VectorNode) -> NodeView
    decreases node,
{
    match node {
        VectorNode::Empty => NodeView::Empty,
        VectorNode::Group(children) => NodeView::Group(node_views(children@)),
        VectorNode::Path(p) => NodeView::Path(p@),
        VectorNode::Circle(c) => NodeView::Circle(c@),
        VectorNode::Rect(r) => NodeView::Rect(r@),
        VectorNode::Line(l) => NodeView::Line(l@),
        VectorNode::Text(t) => NodeView::Text(t@),
    }
}

impl View for VectorNode {
    type V = NodeView;

    open spec fn view(&self) -> NodeView {
        node_view(*self)
    }
}

/// The values of a sequence of nodes, one by one.
pub open spec fn node_views(nodes: Seq<VectorNode>) -> Seq<NodeView>
    decreases nodes,
{
    Seq::new(
        nodes.len(),
        |i: int|
            if 0 <= i < nodes.len() {
                node_view(nodes[i])
            } else {
                NodeView::Empty
            },
    )
}

/// What a conversion could not reproduce, or had to leave out.
#[derive(Debug, PartialEq, Eq)]
pub enum Diagnostic {
    /// A rectangle's four corners are not rounded alike.
    AsymmetricRounding,
    /// A named font family, for which a generic one was taken.
    UnsupportedFontFamily(String),
    /// A mesh that takes its colours from an image as well.
    TexturedMesh,
    /// A mesh whose corners differ in colour within one triangle.
    GradientMesh,
    /// A mesh that names a corner it does not have.
    MeshIndexOutOfRange,
    /// A glyph that is formatted by a section the layout does not have.
    MissingSection(u32),
    /// A command that has no counterpart here, by its name.
    UnknownCommand(String),
}

/// The mathematical value of a [`Diagnostic`].
pub enum DiagnosticView {
    AsymmetricRounding,
    UnsupportedFontFamily(Seq<char>),
    TexturedMesh,
    GradientMesh,
    MeshIndexOutOfRange,
    MissingSection(u32),
    UnknownCommand(Seq<char>),
}

impl View for Diagnostic {
    type V = DiagnosticView;

    open spec fn view(&self) -> DiagnosticView {
        match self {
            Diagnostic::AsymmetricRounding => DiagnosticView::AsymmetricRounding,
            Diagnostic::UnsupportedFontFamily(name) => DiagnosticView::UnsupportedFontFamily(name@),
            Diagnostic::TexturedMesh => DiagnosticView::TexturedMesh,
            Diagnostic::GradientMesh => DiagnosticView::GradientMesh,
            Diagnostic::MeshIndexOutOfRange => DiagnosticView::MeshIndexOutOfRange,
            Diagnostic::MissingSection(index) => DiagnosticView::MissingSection(*index),
            Diagnostic::UnknownCommand(name) => DiagnosticView::UnknownCommand(name@),
        }
    }
}

/// What a diagnostic says, in words.
pub open spec fn message_text(diagnostic: DiagnosticView) -> Seq<char> {
    match diagnostic {
        DiagnosticView::AsymmetricRounding => "asymmetric rounding unsupported"@,
        DiagnosticView::UnsupportedFontFamily(name) => "font family "@ + name + " unsupported"@,
        DiagnosticView::TexturedMesh => "mesh texture unsupported"@,
        DiagnosticView::GradientMesh => "mesh gradient unsupported"@,
        DiagnosticView::MeshIndexOutOfRange => "mesh index out of range"@,
        DiagnosticView::MissingSection(index) => "text section "@ + decimal_text(index as int)
            + " missing"@,
        DiagnosticView::UnknownCommand(name) => "draw command "@ + name + " unsupported"@,
    }
}

impl Diagnostic {
    /// What the diagnostic says, in words.
    pub fn message(&self) -> (out: String)
        ensures
            out@ == message_text(self@),
    {
        match self {
            Diagnostic::AsymmetricRounding => String::from_str("asymmetric rounding unsupported"),
            Diagnostic::UnsupportedFontFamily(name) => {
                let mut out = String::from_str("font family ");
                out.append(name.as_str());
                out.append(" unsupported");
                out
            },
            Diagnostic::TexturedMesh => String::from_str("mesh texture unsupported"),
            Diagnostic::GradientMesh => String::from_str("mesh gradient unsupported"),
            Diagnostic::MeshIndexOutOfRange => String::from_str("mesh index out of range"),
            Diagnostic::MissingSection(index) => {
                let mut out = String::from_str("text section ");
                write_decimal(&mut out, *index as i128);
                out.append(" missing");
                out
            },
            Diagnostic::UnknownCommand(name) => {
                let mut out = String::from_str("draw command ");
                out.append(name.as_str());
                out.append(" unsupported");
                out
            },
        }
    }
}

/// The values of a sequence of diagnostics, one by one.
pub open spec fn diagnostic_views(diagnostics: Seq<Diagnostic>) -> Seq<DiagnosticView> {
    diagnostics.map_values(|d: Diagnostic| d@)
}

/// A run of nodes that show only inside one rectangle.
#[derive(Debug, PartialEq, Eq)]
pub struct ClipGroup {
    /// The number of the group among the groups of its document.
    pub id: usize,
    /// The rectangle outside of which the children do not show.
    pub region: DocRect,
    pub children: Vec<VectorNode>,
}

/// The mathematical value of a [`ClipGroup`].
pub struct ClipGroupView {
    pub id: int,
    pub region: SpecRect,
    pub children: Seq<NodeView>,
}

impl View for ClipGroup {
    type V = ClipGroupView;

    open spec fn view(&self) -> ClipGroupView {
        ClipGroupView {
            id: self.id as int,
            region: self.region@,
            children: node_views(self.children@),
        }
    }
}

/// The values of a sequence of clip groups, one by one.
pub open spec fn group_views(groups: Seq<ClipGroup>) -> Seq<ClipGroupView> {
    groups.map_values(|g: ClipGroup| g@)
}

/// The finished picture: what part of the plane it shows, and the clip
/// groups that it shows there, first to last.
#[derive(Debug, PartialEq, Eq)]
pub struct VectorDocument {
    pub view_box: DocRect,
    pub groups: Vec<ClipGroup>,
}

/// The mathematical value of a [`VectorDocument`].
pub struct DocumentView {
    pub view_box: SpecRect,
    pub groups: Seq<ClipGroupView>,
}

impl View for VectorDocument {
    type V = DocumentView;

    open spec fn view(&self) -> DocumentView {
        DocumentView { view_box: self.view_box@, groups: group_views(self.groups@) }
    }
}

} // verus!
