//! What the host hands over: the draw commands of one render pass, the
//! layers that hold them, and the frame that holds the layers.

use crate::geometry::{Color, Point, Rect, Stroke};
use vstd::prelude::*;

verus! {

/// The family of a font, as the host names it.
#[derive(Debug, PartialEq, Eq)]
pub enum FontFamily {
    Proportional,
    Monospace,
    Named(String),
}

/// The mathematical value of a [`FontFamily`].
pub enum FontFamilyView {
    Proportional,
    Monospace,
    Named(Seq<char>),
}

impl View for FontFamily {
    type V = FontFamilyView;

    open spec fn view(&self) -> FontFamilyView {
        match self {
            FontFamily::Proportional => FontFamilyView::Proportional,
            FontFamily::Monospace => FontFamilyView::Monospace,
            FontFamily::Named(name) => FontFamilyView::Named(name@),
        }
    }
}

/// Where the text of a layout stands between its left and right edge.
#[derive(Clone, Copy, Debug, PartialEq, Eq, Structural)]
pub enum HorizontalAlign {
    Min,
    Center,
    Max,
}

/// One shaped glyph of a row.
#[derive(Clone, Copy, Debug, PartialEq, Eq, Structural)]
pub struct Glyph {
    /// The character that the glyph shows.
    pub chr: char,
    /// The glyph's position, relative to the text's anchor.
    pub pos: Point,
    /// The glyph's advance; `x` is what it adds to the width of its run.
    pub size: Point,
    /// Which section of the layout formats the glyph.
    pub section: u32,
}

/// A stretch of text under one format.
#[derive(Debug, PartialEq, Eq)]
pub struct Section {
    /// Where the section begins in the laid-out text.
    pub start: usize,
    /// Where the section ends in the laid-out text.
    pub end: usize,
    pub family: FontFamily,
    pub font_size: i32,
    pub color: Color,
    pub leading_space: i32,
}

/// The mathematical value of a [`Section`].
pub struct SectionView {
    pub start: usize,
    pub end: usize,
    pub family: FontFamilyView,
    pub font_size: i32,
    pub color: Color,
    pub leading_space: i32,
}

impl View for Section {
    type V = SectionView;

    open spec fn view(&self) -> SectionView {
        SectionView {
            start: self.start,
            end: self.end,
            family: self.family@,
            font_size: self.font_size,
            color: self.color,
            leading_space: self.leading_space,
        }
    }
}

/// One visual line of laid-out text.
#[derive(Debug, PartialEq, Eq)]
pub struct Row {
    pub glyphs: Vec<Glyph>,
    /// The section that is in force where the row begins.
    pub first_section: u32,
    /// Whether the row ends in a line break that the text itself asked for.
    pub ends_with_newline: bool,
}

/// The mathematical value of a [`Row`].
pub struct RowView {
    pub glyphs: Seq<Glyph>,
    pub first_section: u32,
    pub ends_with_newline: bool,
}

impl View for Row {
    type V = RowView;

    open spec fn view(&self) -> RowView {
        RowView {
            glyphs: self.glyphs@,
            first_section: self.first_section,
            ends_with_newline: self.ends_with_newline,
        }
    }
}

/// A block of shaped text and where it goes.
#[derive(Debug, PartialEq, Eq)]
pub struct TextCommand {
    /// The position that every glyph position is relative to.
    pub anchor: Point,
    pub rows: Vec<Row>,
    pub sections: Vec<Section>,
    /// Whether rows are stretched to the full line width.
    pub justify: bool,
    pub halign: HorizontalAlign,
    /// The width of a full line of the layout.
    pub line_width: i32,
    /// A colour that replaces the colour of every section.
    pub override_color: Option<Color>,
    /// The colour that replaces the placeholder colour.
    pub fallback_color: Color,
}

/// The mathematical value of a [`TextCommand`].
pub struct TextCommandView {
    pub anchor: Point,
    pub rows: Seq<RowView>,
    pub sections: Seq<SectionView>,
    pub justify: bool,
    pub halign: HorizontalAlign,
    pub line_width: i32,
    pub override_color: Option<Color>,
    pub fallback_color: Color,
}

impl View for TextCommand {
    type V = TextCommandView;

    open spec fn view(&self) -> TextCommandView {
        TextCommandView {
            anchor: self.anchor,
            rows: self.rows@.map_values(|r: Row| r@),
            sections: self.sections@.map_values(|s: Section| s@),
            justify: self.justify,
            halign: self.halign,
            line_width: self.line_width,
            override_color: self.override_color,
            fallback_color: self.fallback_color,
        }
    }
}

/// One corner of a mesh.
#[derive(Clone, Copy, Debug, PartialEq, Eq, Structural)]
pub struct Vertex {
    pub pos: Point,
    pub color: Color,
}

/// How far each corner of a rectangle is rounded.
#[derive(Clone, Copy, Debug, PartialEq, Eq, Structural)]
pub struct CornerRadii {
    pub nw: i32,
    pub ne: i32,
    pub sw: i32,
    pub se: i32,
}

/// One drawing instruction of a render pass.
#[derive(Debug, PartialEq, Eq)]
pub enum DrawCommand {
    /// Draws nothing.
    Empty,
    /// Draws its children, first to last.
    Group(Vec<DrawCommand>),
    /// A line through `points`, back to the first one where `closed`.
    Path { points: Vec<Point>, closed: bool, fill: Color, stroke: Stroke },
    Circle { center: Point, radius: i32, fill: Color, stroke: Stroke },
    Rect { bounds: Rect, radii: CornerRadii, fill: Color, stroke: Stroke },
    LineSegment { from: Point, to: Point, stroke: Stroke },
    /// Triangles: every three `indices` name the corners of one. A mesh that
    /// is `textured` takes its colours from an image as well.
    Mesh { vertices: Vec<Vertex>, indices: Vec<u32>, textured: bool },
    Text(TextCommand),
    /// A command of the host that has no counterpart here, by its name.
    Unknown(String),
}

/// The mathematical value of a [`DrawCommand`].
pub enum DrawCommandView {
    Empty,
    Group(Seq<DrawCommandView>),
    Path { points: Seq<Point>, closed: bool, fill: Color, stroke: Stroke },
    Circle { center: Point, radius: i32, fill: Color, stroke: Stroke },
    Rect { bounds: Rect, radii: CornerRadii, fill: Color, stroke: Stroke },
    LineSegment { from: Point, to: Point, stroke: Stroke },
    Mesh { vertices: Seq<Vertex>, indices: Seq<u32>, textured: bool },
    Text(TextCommandView),
    Unknown(Seq<char>),
}

/// The mathematical value of a draw command.
pub open spec fn command_view(command: DrawCommand) -> DrawCommandView
    decreases command,
{
    match command {
        DrawCommand::Empty => DrawCommandView::Empty,
        DrawCommand::Group(children) => DrawCommandView::Group(command_views(children@)),
        DrawCommand::Path { points, closed, fill, stroke } => DrawCommandView::Path {
            points: points@,
            closed,
            fill,
            stroke,
        },
        DrawCommand::Circle { center, radius, fill, stroke } => DrawCommandView::Circle {
            center,
            radius,
            fill,
            stroke,
        },
        DrawCommand::Rect { bounds, radii, fill, stroke } => DrawCommandView::Rect {
            bounds,
            radii,
            fill,
            stroke,
        },
        DrawCommand::LineSegment { from, to, stroke } => DrawCommandView::LineSegment {
            from,
            to,
            stroke,
        },
        DrawCommand::Mesh { vertices, indices, textured } => DrawCommandView::Mesh {
            vertices: vertices@,
            indices: indices@,
            textured,
        },
        DrawCommand::Text(text) => DrawCommandView::Text(text@),
        DrawCommand::Unknown(name) => DrawCommandView::Unknown(name@),
    }
}

impl View for DrawCommand {
    type V = DrawCommandView;

    open spec fn view(&self) -> DrawCommandView {
        command_view(*self)
    }
}

/// The values of a sequence of draw commands, one by one.
pub open spec fn command_views(commands: Seq<DrawCommand>) -> Seq<DrawCommandView>
    decreases commands,
{
    Seq::new(
        commands.len(),
        |i: int|
            if 0 <= i < commands.len() {
                command_view(commands[i])
            } else {
                DrawCommandView::Empty
            },
    )
}

/// A draw command, the rectangle outside of which it does not show, and the
/// rectangle that the host measured as what it paints.
#[derive(Debug, PartialEq, Eq)]
pub struct ClippedDrawCommand {
    pub clip: Rect,
    pub command: DrawCommand,
    pub bounds: Rect,
}

/// The mathematical value of a [`ClippedDrawCommand`].
pub struct ClippedView {
    pub clip: Rect,
    pub command: DrawCommandView,
    pub bounds: Rect,
}

impl View for ClippedDrawCommand {
    type V = ClippedView;

    open spec fn view(&self) -> ClippedView {
        ClippedView { clip: self.clip, command: self.command@, bounds: self.bounds }
    }
}

/// The values of a sequence of clipped commands, one by one.
pub open spec fn clipped_views(commands: Seq<ClippedDrawCommand>) -> Seq<ClippedView> {
    commands.map_values(|c: ClippedDrawCommand| c@)
}

/// The values of a sequence of borrowed clipped commands, one by one.
pub open spec fn borrowed_views(commands: Seq<&ClippedDrawCommand>) -> Seq<ClippedView> {
    commands.map_values(|c: &ClippedDrawCommand| c@)
}

/// The commands of one paint layer, in the order they were issued: a later
/// one paints over an earlier one.
#[derive(Debug, PartialEq, Eq)]
pub struct Layer {
    /// Layers are painted by ascending `order`.
    pub order: u32,
    /// Tells layers of the same `order` apart.
    pub id: u64,
    pub commands: Vec<ClippedDrawCommand>,
}

/// The mathematical value of a [`Layer`].
pub struct LayerView {
    pub order: u32,
    pub id: u64,
    pub commands: Seq<ClippedView>,
}

impl View for Layer {
    type V = LayerView;

    open spec fn view(&self) -> LayerView {
        LayerView {
            order: self.order,
            id: self.id,
            commands: clipped_views(self.commands@),
        }
    }
}

/// What the host has drawn so far in the current pass.
#[derive(Debug, PartialEq, Eq)]
pub struct Frame {
    pub layers: Vec<Layer>,
    /// The rectangle of the screen.
    pub screen: Rect,
}

/// The mathematical value of a [`Frame`].
pub struct FrameView {
    pub layers: Seq<LayerView>,
    pub screen: Rect,
}

impl View for Frame {
    type V = FrameView;

    open spec fn view(&self) -> FrameView {
        FrameView { layers: self.layers@.map_values(|l: Layer| l@), screen: self.screen }
    }
}

} // verus!
