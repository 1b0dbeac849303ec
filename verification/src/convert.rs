//! From one draw command to the node that shows it.
//!
//! The conversion is total: a command that cannot be shown as it is yields
//! the nearest node that can, or an empty one, and a diagnostic that says so.

use crate::command::{command_views, CornerRadii, DrawCommand, DrawCommandView, Vertex};
use crate::geometry::{greater, shifted, shifted_rect, visible_stroke, Point};
use crate::node::{
    diagnostic_views, node_views, CircleNode, CircleView, Diagnostic, DiagnosticView, LineNode,
    LineView, NodeView, PathNode, PathSegment, PathView, RectNode, RectView, SegmentView,
    VectorNode,
};
use crate::text::{convert_text, text_diagnostics, text_nodes};
use vstd::prelude::*;

verus! {

/// The steps of a path through `points`: a move to the first point, a line
/// to each further one, and a closing step where the path is closed.
pub open spec fn path_segments(
    points: Seq<Point>,
    closed: bool,
    origin: Point,
) -> Seq<SegmentView> {
    Seq::new(
        points.len(),
        |i: int|
            if i == 0 {
                SegmentView::MoveTo(shifted(points[i], origin))
            } else {
                SegmentView::LineTo(shifted(points[i], origin))
            },
    ) + if closed {
        seq![SegmentView::Close]
    } else {
        Seq::empty()
    }
}

/// The one radius that stands for four: the largest of them.
pub open spec fn collapsed_radius(radii: CornerRadii) -> int {
    greater(greater(radii.nw as int, radii.ne as int), greater(radii.sw as int, radii.se as int))
}

/// Whether the four corners are rounded alike.
pub open spec fn uniform_radii(radii: CornerRadii) -> bool {
    radii.nw == radii.ne && radii.ne == radii.sw && radii.sw == radii.se
}

/// How many triangles a list of corner indices holds; indices left over
/// after the last full three name no triangle.
pub open spec fn triangle_count(indices: Seq<u32>) -> nat {
    (indices.len() / 3) as nat
}

/// Whether the mesh has all three corners of its triangle `k`.
pub open spec fn triangle_known(vertices: Seq<Vertex>, indices: Seq<u32>, k: int) -> bool {
    &&& indices[3 * k] < vertices.len()
    &&& indices[3 * k + 1] < vertices.len()
    &&& indices[3 * k + 2] < vertices.len()
}

/// Whether the three corners of triangle `k` are of one colour.
pub open spec fn triangle_flat(vertices: Seq<Vertex>, indices: Seq<u32>, k: int) -> bool {
    &&& vertices[indices[3 * k] as int].color == vertices[indices[3 * k + 1] as int].color
    &&& vertices[indices[3 * k] as int].color == vertices[indices[3 * k + 2] as int].color
}

/// Triangle `k` as a closed path through its corners, filled in the colour
/// of its first corner and without an outline.
pub open spec fn triangle_path(
    vertices: Seq<Vertex>,
    indices: Seq<u32>,
    k: int,
    origin: Point,
) -> PathView {
    PathView {
        segments: seq![
            SegmentView::MoveTo(shifted(vertices[indices[3 * k] as int].pos, origin)),
            SegmentView::LineTo(shifted(vertices[indices[3 * k + 1] as int].pos, origin)),
            SegmentView::LineTo(shifted(vertices[indices[3 * k + 2] as int].pos, origin)),
            SegmentView::Close,
        ],
        fill: vertices[indices[3 * k] as int].color,
        stroke: None,
    }
}

/// The paths of the first `n` triangles of a mesh, in order. A triangle that
/// names a corner the mesh does not have yields no path.
pub open spec fn mesh_nodes(
    vertices: Seq<Vertex>,
    indices: Seq<u32>,
    origin: Point,
    n: nat,
) -> Seq<NodeView>
    decreases n,
{
    if n == 0 {
        Seq::empty()
    } else {
        let before = mesh_nodes(vertices, indices, origin, (n - 1) as nat);
        if triangle_known(vertices, indices, n - 1) {
            before.push(NodeView::Path(triangle_path(vertices, indices, n - 1, origin)))
        } else {
            before
        }
    }
}

/// Whether one of the first `n` triangles has corners of different colours.
pub open spec fn mesh_has_gradient(vertices: Seq<Vertex>, indices: Seq<u32>, n: nat) -> bool {
    exists|k: int|
        0 <= k < n && #[trigger] triangle_known(vertices, indices, k) && !triangle_flat(
            vertices,
            indices,
            k,
        )
}

/// Whether one of the first `n` triangles names a corner the mesh lacks.
pub open spec fn mesh_has_stray_index(vertices: Seq<Vertex>, indices: Seq<u32>, n: nat) -> bool {
    exists|k: int| 0 <= k < n && !#[trigger] triangle_known(vertices, indices, k)
}

/// What there is to say of a mesh: that its texture was dropped, then that
/// colours were flattened, then that triangles were left out; each at most
/// once.
pub open spec fn mesh_diagnostics(
    vertices: Seq<Vertex>,
    indices: Seq<u32>,
    textured: bool,
) -> Seq<DiagnosticView> {
    let n = triangle_count(indices);
    (if textured {
        seq![DiagnosticView::TexturedMesh]
    } else {
        Seq::empty()
    }) + (if mesh_has_gradient(vertices, indices, n) {
        seq![DiagnosticView::GradientMesh]
    } else {
        Seq::empty()
    }) + (if mesh_has_stray_index(vertices, indices, n) {
        seq![DiagnosticView::MeshIndexOutOfRange]
    } else {
        Seq::empty()
    })
}

/// The node that shows `command` in a document whose zero is `origin`.
pub open spec fn node_of(command: DrawCommandView, origin: Point) -> NodeView
    decreases command,
{
    match command {
        DrawCommandView::Empty => NodeView::Empty,
        DrawCommandView::Group(children) => NodeView::Group(child_nodes(children, origin)),
        DrawCommandView::Path { points, closed, fill, stroke } => NodeView::Path(
            PathView {
                segments: path_segments(points, closed, origin),
                fill,
                stroke: visible_stroke(stroke),
            },
        ),
        DrawCommandView::Circle { center, radius, fill, stroke } => NodeView::Circle(
            CircleView {
                center: shifted(center, origin),
                radius: radius as int,
                fill,
                stroke: visible_stroke(stroke),
            },
        ),
        DrawCommandView::Rect { bounds, radii, fill, stroke } => NodeView::Rect(
            RectView {
                region: shifted_rect(bounds, origin),
                corner_radius: collapsed_radius(radii),
                fill,
                stroke: visible_stroke(stroke),
            },
        ),
        DrawCommandView::LineSegment { from, to, stroke } => NodeView::Line(
            LineView {
                from: shifted(from, origin),
                to: shifted(to, origin),
                stroke: visible_stroke(stroke),
            },
        ),
        DrawCommandView::Mesh { vertices, indices, .. } => NodeView::Group(
            mesh_nodes(vertices, indices, origin, triangle_count(indices)),
        ),
        DrawCommandView::Text(text) => NodeView::Group(text_nodes(text, origin, text.rows.len())),
        DrawCommandView::Unknown(_) => NodeView::Empty,
    }
}

/// The nodes that show `children`, one for each and in their order.
pub open spec fn child_nodes(children: Seq<DrawCommandView>, origin: Point) -> Seq<NodeView>
    decreases children,
{
    Seq::new(
        children.len(),
        |i: int|
            if 0 <= i < children.len() {
                node_of(children[i], origin)
            } else {
                NodeView::Empty
            },
    )
}

/// What there is to say of the conversion of `command`: the diagnostics of
/// its parts, in the order of the parts.
pub open spec fn diagnostics_of(command: DrawCommandView) -> Seq<DiagnosticView>
    decreases command,
{
    match command {
        DrawCommandView::Group(children) => child_diagnostics(children).flatten(),
        DrawCommandView::Rect { radii, .. } => if uniform_radii(radii) {
            Seq::empty()
        } else {
            seq![DiagnosticView::AsymmetricRounding]
        },
        DrawCommandView::Mesh { vertices, indices, textured } => mesh_diagnostics(
            vertices,
            indices,
            textured,
        ),
        DrawCommandView::Text(text) => text_diagnostics(text, text.rows.len()),
        DrawCommandView::Unknown(name) => seq![DiagnosticView::UnknownCommand(name)],
        _ => Seq::empty(),
    }
}

/// The diagnostics of `children`, child by child.
pub open spec fn child_diagnostics(children: Seq<DrawCommandView>) -> Seq<Seq<DiagnosticView>>
    decreases children,
{
    Seq::new(
        children.len(),
        |i: int|
            if 0 <= i < children.len() {
                diagnostics_of(children[i])
            } else {
                Seq::empty()
            },
    )
}

/// A node, and what there is to say of how it came about.
#[derive(Debug, PartialEq, Eq)]
pub struct Conversion {
    pub node: VectorNode,
    pub diagnostics: Vec<Diagnostic>,
}

/// The steps of a path through `points`.
pub fn convert_path(points: &Vec<Point>, closed: bool, origin: Point) -> (out: Vec<PathSegment>)
    ensures
        out@.map_values(|s: PathSegment| s@) == path_segments(points@, closed, origin),
{
    let mut segments: Vec<PathSegment> = Vec::new();
    let mut i: usize = 0;
    while i < points.len()
        invariant
            i <= points.len(),
            segments@.len() == i,
            forall|k: int|
                0 <= k < i ==> (#[trigger] segments@[k])@ == if k == 0 {
                    SegmentView::MoveTo(shifted(points@[k], origin))
                } else {
                    SegmentView::LineTo(shifted(points@[k], origin))
                },
        decreases points.len() - i,
    {
        let at = points[i].shift(origin);
        if i == 0 {
            segments.push(PathSegment::MoveTo(at));
        } else {
            segments.push(PathSegment::LineTo(at));
        }
        i = i + 1;
    }
    if closed {
        segments.push(PathSegment::Close);
    }
    proof {
        assert(segments@.map_values(|s: PathSegment| s@) =~= path_segments(
            points@,
            closed,
            origin,
        ));
    }
    segments
}

/// The one radius that stands for four: the largest of them.
pub fn collapse_radii(radii: CornerRadii) -> (out: i32)
    ensures
        out == collapsed_radius(radii),
{
    let north: i32 = if radii.nw >= radii.ne {
        radii.nw
    } else {
        radii.ne
    };
    let south: i32 = if radii.sw >= radii.se {
        radii.sw
    } else {
        radii.se
    };
    if north >= south {
        north
    } else {
        south
    }
}

/// The paths of the triangles of a mesh, and what there is to say of them.
pub fn convert_mesh(
    vertices: &Vec<Vertex>,
    indices: &Vec<u32>,
    textured: bool,
    origin: Point,
) -> (out: (Vec<VectorNode>, Vec<Diagnostic>))
    ensures
        node_views(out.0@) == mesh_nodes(vertices@, indices@, origin, triangle_count(indices@)),
        diagnostic_views(out.1@) == mesh_diagnostics(vertices@, indices@, textured),
{
    let count: usize = indices.len() / 3;
    assert(3 * count <= indices.len());
    let mut nodes: Vec<VectorNode> = Vec::new();
    let mut gradient: bool = false;
    let mut stray: bool = false;
    let mut k: usize = 0;
    proof {
        assert(node_views(nodes@) =~= mesh_nodes(vertices@, indices@, origin, 0));
    }
    while k < count
        invariant
            count == triangle_count(indices@),
            3 * count <= indices.len(),
            k <= count,
            node_views(nodes@) == mesh_nodes(vertices@, indices@, origin, k as nat),
            gradient == mesh_has_gradient(vertices@, indices@, k as nat),
            stray == mesh_has_stray_index(vertices@, indices@, k as nat),
        decreases count - k,
    {
        let ia: usize = indices[3 * k] as usize;
        let ib: usize = indices[3 * k + 1] as usize;
        let ic: usize = indices[3 * k + 2] as usize;
        let ghost nodes_before = nodes@;
        if ia < vertices.len() && ib < vertices.len() && ic < vertices.len() {
            let a: Vertex = vertices[ia];
            let b: Vertex = vertices[ib];
            let c: Vertex = vertices[ic];
            let mut segments: Vec<PathSegment> = Vec::new();
            segments.push(PathSegment::MoveTo(a.pos.shift(origin)));
            segments.push(PathSegment::LineTo(b.pos.shift(origin)));
            segments.push(PathSegment::LineTo(c.pos.shift(origin)));
            segments.push(PathSegment::Close);
            let path = PathNode { segments, fill: a.color, stroke: None };
            proof {
                assert(path@.segments =~= triangle_path(
                    vertices@,
                    indices@,
                    k as int,
                    origin,
                ).segments);
            }
            let flat: bool = a.color == b.color && a.color == c.color;
            let ghost path_view = path@;
            nodes.push(VectorNode::Path(path));
            proof {
                assert(node_views(nodes@) =~= node_views(nodes_before).push(
                    NodeView::Path(path_view),
                ));
                assert(triangle_known(vertices@, indices@, k as int));
                assert(flat == triangle_flat(vertices@, indices@, k as int));
                lemma_gradient_step(vertices@, indices@, k as nat);
                lemma_stray_step(vertices@, indices@, k as nat);
            }
            if !flat {
                gradient = true;
            }
        } else {
            proof {
                assert(!triangle_known(vertices@, indices@, k as int));
                lemma_gradient_step(vertices@, indices@, k as nat);
                lemma_stray_step(vertices@, indices@, k as nat);
            }
            stray = true;
        }
        k = k + 1;
    }
    let mut diagnostics: Vec<Diagnostic> = Vec::new();
    if textured {
        diagnostics.push(Diagnostic::TexturedMesh);
    }
    if gradient {
        diagnostics.push(Diagnostic::GradientMesh);
    }
    if stray {
        diagnostics.push(Diagnostic::MeshIndexOutOfRange);
    }
    proof {
        assert(diagnostic_views(diagnostics@) =~= mesh_diagnostics(vertices@, indices@, textured));
    }
    (nodes, diagnostics)
}

/// One more triangle shows a gradient if it has one itself, or if one
/// before it did.
proof fn lemma_gradient_step(vertices: Seq<Vertex>, indices: Seq<u32>, k: nat)
    ensures
        mesh_has_gradient(vertices, indices, k + 1) == (mesh_has_gradient(vertices, indices, k)
            || (triangle_known(vertices, indices, k as int) && !triangle_flat(
            vertices,
            indices,
            k as int,
        ))),
{
    if mesh_has_gradient(vertices, indices, k + 1) {
        let w = choose|w: int|
            0 <= w < k + 1 && #[trigger] triangle_known(vertices, indices, w) && !triangle_flat(
                vertices,
                indices,
                w,
            );
        if w < k {
            assert(mesh_has_gradient(vertices, indices, k));
        }
    }
    if mesh_has_gradient(vertices, indices, k) {
        let w = choose|w: int|
            0 <= w < k && #[trigger] triangle_known(vertices, indices, w) && !triangle_flat(
                vertices,
                indices,
                w,
            );
        assert(triangle_known(vertices, indices, w));
    }
}

/// One more triangle lacks a corner if it does so itself, or if one before
/// it did.
proof fn lemma_stray_step(vertices: Seq<Vertex>, indices: Seq<u32>, k: nat)
    ensures
        mesh_has_stray_index(vertices, indices, k + 1) == (mesh_has_stray_index(
            vertices,
            indices,
            k,
        ) || !triangle_known(vertices, indices, k as int)),
{
    if mesh_has_stray_index(vertices, indices, k + 1) {
        let w = choose|w: int| 0 <= w < k + 1 && !#[trigger] triangle_known(vertices, indices, w);
        if w < k {
            assert(mesh_has_stray_index(vertices, indices, k));
        }
    }
    if mesh_has_stray_index(vertices, indices, k) {
        let w = choose|w: int| 0 <= w < k && !#[trigger] triangle_known(vertices, indices, w);
        assert(!triangle_known(vertices, indices, w));
    }
}

/// Converts the children of a group, one after the other.
fn convert_children(
    command: &DrawCommand,
    children: &Vec<DrawCommand>,
    origin: Point,
) -> (out: Conversion)
    requires
        *command == DrawCommand::Group(*children),
    ensures
        out.node@ == node_of(command@, origin),
        diagnostic_views(out.diagnostics@) == diagnostics_of(command@),
    decreases command, 0nat,
{
    let mut nodes: Vec<VectorNode> = Vec::new();
    let mut diagnostics: Vec<Diagnostic> = Vec::new();
    let ghost views = command@->Group_0;
    let ghost notes = child_diagnostics(views);
    let mut i: usize = 0;
    proof {
        assert(command@ == DrawCommand::Group(*children)@);
        assert(DrawCommand::Group(*children)@ == DrawCommandView::Group(command_views(children@)));
        assert(views == command_views(children@));
        assert(views.len() == children@.len());
        assert(notes.take(0) =~= Seq::<Seq<DiagnosticView>>::empty());
        assert(diagnostic_views(diagnostics@) =~= notes.take(0).flatten());
    }
    while i < children.len()
        invariant
            *command == DrawCommand::Group(*children),
            views == command@->Group_0,
            views.len() == children@.len(),
            forall|k: int| 0 <= k < views.len() ==> #[trigger] views[k] == children@[k]@,
            notes.len() == views.len(),
            forall|k: int| 0 <= k < views.len() ==> #[trigger] notes[k] == diagnostics_of(views[k]),
            i <= children.len(),
            nodes@.len() == i,
            forall|k: int| 0 <= k < i ==> (#[trigger] nodes@[k])@ == node_of(views[k], origin),
            diagnostic_views(diagnostics@) == notes.take(i as int).flatten(),
        decreases children.len() - i,
    {
        let child = &children[i];
        proof {
            assert(command->Group_0 == *children);
            assert(decreases_to!(*command => command->Group_0));
            assert(decreases_to!(*children => children[i as int]));
        }
        let converted = convert_at(child, origin);
        let Conversion { node, diagnostics: mut found } = converted;
        let ghost before = diagnostics@;
        let ghost found_before = found@;
        nodes.push(node);
        diagnostics.append(&mut found);
        proof {
            assert(diagnostic_views(diagnostics@) =~= diagnostic_views(before) + diagnostic_views(
                found_before,
            ));
            assert(notes.take(i + 1) =~= notes.take(i as int).push(notes[i as int]));
            notes.take(i as int).lemma_flatten_push(notes[i as int]);
        }
        i = i + 1;
    }
    let out = Conversion { node: VectorNode::Group(nodes), diagnostics };
    proof {
        assert(notes.take(i as int) =~= notes);
        assert(command@ == DrawCommandView::Group(views));
        assert(out.node@->Group_0 =~= node_of(command@, origin)->Group_0);
    }
    out
}

/// Converts one draw command for a document whose zero is `origin`.
pub fn convert_at(command: &DrawCommand, origin: Point) -> (out: Conversion)
    ensures
        out.node@ == node_of(command@, origin),
        diagnostic_views(out.diagnostics@) == diagnostics_of(command@),
        out.diagnostics@.len() == diagnostics_of(command@).len(),
    decreases command, 1nat,
{
    match command {
        DrawCommand::Empty => Conversion { node: VectorNode::Empty, diagnostics: Vec::new() },
        DrawCommand::Group(children) => convert_children(command, children, origin),
        DrawCommand::Path { points, closed, fill, stroke } => {
            let segments = convert_path(points, *closed, origin);
            Conversion {
                node: VectorNode::Path(
                    PathNode { segments, fill: *fill, stroke: stroke.visible() },
                ),
                diagnostics: Vec::new(),
            }
        },
        DrawCommand::Circle { center, radius, fill, stroke } => Conversion {
            node: VectorNode::Circle(
                CircleNode {
                    center: center.shift(origin),
                    radius: *radius,
                    fill: *fill,
                    stroke: stroke.visible(),
                },
            ),
            diagnostics: Vec::new(),
        },
        DrawCommand::Rect { bounds, radii, fill, stroke } => {
            let mut diagnostics: Vec<Diagnostic> = Vec::new();
            if !(radii.nw == radii.ne && radii.ne == radii.sw && radii.sw == radii.se) {
                diagnostics.push(Diagnostic::AsymmetricRounding);
            }
            proof {
                assert(diagnostic_views(diagnostics@) =~= diagnostics_of(command@));
            }
            Conversion {
                node: VectorNode::Rect(
                    RectNode {
                        region: bounds.shift(origin),
                        corner_radius: collapse_radii(*radii),
                        fill: *fill,
                        stroke: stroke.visible(),
                    },
                ),
                diagnostics,
            }
        },
        DrawCommand::LineSegment { from, to, stroke } => Conversion {
            node: VectorNode::Line(
                LineNode {
                    from: from.shift(origin),
                    to: to.shift(origin),
                    stroke: stroke.visible(),
                },
            ),
            diagnostics: Vec::new(),
        },
        DrawCommand::Mesh { vertices, indices, textured } => {
            let (nodes, diagnostics) = convert_mesh(vertices, indices, *textured, origin);
            Conversion { node: VectorNode::Group(nodes), diagnostics }
        },
        DrawCommand::Text(text) => {
            let (nodes, diagnostics) = convert_text(text, origin);
            Conversion { node: VectorNode::Group(nodes), diagnostics }
        },
        DrawCommand::Unknown(name) => {
            let mut diagnostics: Vec<Diagnostic> = Vec::new();
            diagnostics.push(Diagnostic::UnknownCommand(name.clone()));
            proof {
                assert(diagnostic_views(diagnostics@) =~= diagnostics_of(command@));
            }
            Conversion { node: VectorNode::Empty, diagnostics }
        },
    }
}

/// Converts one draw command, leaving its coordinates as they are.
pub fn convert(command: &DrawCommand) -> (out: Conversion)
    ensures
        out.node@ == node_of(command@, Point::zero()),
        diagnostic_views(out.diagnostics@) == diagnostics_of(command@),
        out.diagnostics@.len() == diagnostics_of(command@).len(),
{
    convert_at(command, Point::origin())
}

} // verus!
