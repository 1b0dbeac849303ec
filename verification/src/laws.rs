//! What holds of every conversion, stated and proved.

use crate::capture::{
    appended, bounding_box, insert_position, marked_length, marks_of, paint_order,
    scope_commands, scope_origin, scoped_of, snapshot_of, LayerMark,
};
use crate::chars::is_white_space;
use crate::clip::{clip_run_count, clip_run_starts_at, converted, groups_of, Grouping};
use crate::command::{
    clipped_views, ClippedDrawCommand, ClippedView, CornerRadii, DrawCommand, DrawCommandView,
    FrameView, Glyph, LayerView, TextCommandView, Vertex,
};
use crate::convert::{
    collapsed_radius, diagnostics_of, mesh_has_stray_index, mesh_nodes, node_of, triangle_count,
    triangle_known, triangle_path, uniform_radii, Conversion,
};
use crate::decimal::lemma_decimal_is_injective;
use crate::emit::{clip_name, document_markup_of, view_box_text};
use crate::geometry::{shifted_rect, viewbox_of, Color, Point, Rect, Stroke};
use crate::node::{diagnostic_views, group_views, ClipGroupView, DiagnosticView, NodeView};
use crate::text::{
    advance_sum, fills_line, lemma_row_skip, row_nodes, run_content, run_end, run_node,
    run_starts_at,
};
use vstd::prelude::*;

verus! {

/// A group converts to a group of as many nodes as it has children, and the
/// node at each place is the conversion of the child at that place.
pub proof fn lemma_group_keeps_order(children: Seq<DrawCommandView>, origin: Point)
    ensures
        node_of(DrawCommandView::Group(children), origin) is Group,
        node_of(DrawCommandView::Group(children), origin)->Group_0.len() == children.len(),
        forall|i: int|
            0 <= i < children.len() ==> #[trigger] node_of(
                DrawCommandView::Group(children),
                origin,
            )->Group_0[i] == node_of(children[i], origin),
{
}

/// Two conversions of commands of the same value have the same value, node
/// and diagnostics alike.
pub proof fn lemma_convert_is_deterministic(
    first: DrawCommand,
    second: DrawCommand,
    origin: Point,
    out_first: Conversion,
    out_second: Conversion,
)
    requires
        first@ == second@,
        out_first.node@ == node_of(first@, origin),
        diagnostic_views(out_first.diagnostics@) == diagnostics_of(first@),
        out_second.node@ == node_of(second@, origin),
        diagnostic_views(out_second.diagnostics@) == diagnostics_of(second@),
    ensures
        out_first.node@ == out_second.node@,
        diagnostic_views(out_first.diagnostics@) == diagnostic_views(out_second.diagnostics@),
{
}

/// Two groupings of command lists of the same value have the same value.
pub proof fn lemma_group_is_deterministic(
    first: Seq<ClippedDrawCommand>,
    second: Seq<ClippedDrawCommand>,
    origin: Point,
    out_first: Grouping,
    out_second: Grouping,
)
    requires
        clipped_views(first) == clipped_views(second),
        group_views(out_first.groups@) == groups_of(clipped_views(first), origin, first.len()),
        group_views(out_second.groups@) == groups_of(clipped_views(second), origin, second.len()),
    ensures
        group_views(out_first.groups@) == group_views(out_second.groups@),
{
    assert(clipped_views(first).len() == first.len());
    assert(clipped_views(second).len() == second.len());
}

/// There are as many groups as runs of equal clip rectangles, and at least
/// one where there is a command.
pub proof fn lemma_group_count(commands: Seq<ClippedView>, origin: Point, n: nat)
    requires
        n <= commands.len(),
    ensures
        groups_of(commands, origin, n).len() == clip_run_count(commands, n),
        n > 0 ==> groups_of(commands, origin, n).len() > 0,
    decreases n,
{
    if n > 0 {
        lemma_group_count(commands, origin, (n - 1) as nat);
    }
}

/// The children of all groups, group after group.
pub open spec fn all_children(groups: Seq<ClipGroupView>) -> Seq<NodeView>
    decreases groups.len(),
{
    if groups.len() == 0 {
        Seq::empty()
    } else {
        all_children(groups.drop_last()) + groups.last().children
    }
}

/// The children of all groups, group after group, are the conversions of
/// the commands, command after command: grouping neither drops, repeats nor
/// reorders.
pub proof fn lemma_groups_hold_all(commands: Seq<ClippedView>, origin: Point, n: nat)
    requires
        n <= commands.len(),
    ensures
        all_children(groups_of(commands, origin, n)) == converted(commands, origin).take(n as int),
        n == commands.len() ==> all_children(groups_of(commands, origin, n)) == converted(
            commands,
            origin,
        ),
    decreases n,
{
    let so_far = converted(commands, origin).take(n as int);
    if n == 0 {
        assert(all_children(groups_of(commands, origin, n)) =~= so_far);
    } else {
        let before = groups_of(commands, origin, (n - 1) as nat);
        let after = groups_of(commands, origin, n);
        let node = node_of(commands[n - 1].command, origin);
        lemma_groups_hold_all(commands, origin, (n - 1) as nat);
        lemma_group_count(commands, origin, (n - 1) as nat);
        if clip_run_starts_at(commands, n - 1) {
            assert(after.drop_last() =~= before);
            assert(after.last().children =~= seq![node]);
        } else {
            assert(after.drop_last() =~= before.drop_last());
            assert(after.last().children == before.last().children.push(node));
            assert(all_children(after) =~= all_children(before).push(node));
        }
        assert(all_children(after) =~= so_far);
    }
    if n == commands.len() {
        assert(so_far =~= converted(commands, origin));
    }
}

/// Groups are numbered from zero in their order, none is empty, two
/// neighbours never have the same clip region, and the last group is clipped
/// by the rectangle of the last command.
pub proof fn lemma_groups_are_runs(commands: Seq<ClippedView>, origin: Point, n: nat)
    requires
        n <= commands.len(),
    ensures
        forall|k: int|
            0 <= k < groups_of(commands, origin, n).len() ==> (#[trigger] groups_of(
                commands,
                origin,
                n,
            )[k]).id == k,
        forall|k: int|
            0 <= k < groups_of(commands, origin, n).len() ==> (#[trigger] groups_of(
                commands,
                origin,
                n,
            )[k]).children.len() > 0,
        forall|k: int|
            0 <= k < groups_of(commands, origin, n).len() - 1 ==> (#[trigger] groups_of(
                commands,
                origin,
                n,
            )[k]).region != groups_of(commands, origin, n)[k + 1].region,
        n > 0 ==> groups_of(commands, origin, n).last().region == shifted_rect(
            commands[n - 1].clip,
            origin,
        ),
    decreases n,
{
    if n > 0 {
        lemma_groups_are_runs(commands, origin, (n - 1) as nat);
        lemma_group_count(commands, origin, (n - 1) as nat);
    }
}

/// More commands leave the groups that are there in place, and leave each
/// its number and its clip region.
pub proof fn lemma_groups_stay(commands: Seq<ClippedView>, origin: Point, m: nat, n: nat)
    requires
        m <= n <= commands.len(),
    ensures
        groups_of(commands, origin, m).len() <= groups_of(commands, origin, n).len(),
        forall|g: int|
            0 <= g < groups_of(commands, origin, m).len() ==> {
                &&& (#[trigger] groups_of(commands, origin, n)[g]).id == groups_of(
                    commands,
                    origin,
                    m,
                )[g].id
                &&& groups_of(commands, origin, n)[g].region == groups_of(
                    commands,
                    origin,
                    m,
                )[g].region
            },
    decreases n - m,
{
    if m < n {
        lemma_groups_stay(commands, origin, m, (n - 1) as nat);
        lemma_group_count(commands, origin, (n - 1) as nat);
    }
}

/// Command `i` lies in the group of its run, and that group is clipped by
/// the command's clip rectangle.
pub proof fn lemma_command_in_its_group(commands: Seq<ClippedView>, origin: Point, i: int, n: nat)
    requires
        0 <= i < n <= commands.len(),
    ensures
        0 <= clip_run_count(commands, (i + 1) as nat) - 1 < groups_of(commands, origin, n).len(),
        groups_of(commands, origin, n)[clip_run_count(commands, (i + 1) as nat) - 1].region
            == shifted_rect(commands[i].clip, origin),
{
    lemma_group_count(commands, origin, (i + 1) as nat);
    lemma_groups_are_runs(commands, origin, (i + 1) as nat);
    lemma_groups_stay(commands, origin, (i + 1) as nat, n);
}

/// Clip regions of different numbers have different names.
pub proof fn lemma_clip_names_differ(j: int, k: int)
    requires
        j != k,
    ensures
        clip_name(j) != clip_name(k),
{
    if clip_name(j) == clip_name(k) {
        let prefix = "clip_rect_"@;
        assert(clip_name(j).skip(prefix.len() as int) =~= crate::decimal::decimal_text(j));
        assert(clip_name(k).skip(prefix.len() as int) =~= crate::decimal::decimal_text(k));
        lemma_decimal_is_injective(j, k);
    }
}

/// No two groups of a grouping refer to a clip region of the same name.
pub proof fn lemma_groups_name_their_own_regions(
    commands: Seq<ClippedView>,
    origin: Point,
    n: nat,
    g: int,
    h: int,
)
    requires
        n <= commands.len(),
        0 <= g < h < groups_of(commands, origin, n).len(),
    ensures
        clip_name(groups_of(commands, origin, n)[g].id) != clip_name(
            groups_of(commands, origin, n)[h].id,
        ),
{
    lemma_groups_are_runs(commands, origin, n);
    lemma_clip_names_differ(g, h);
}

/// A rectangle whose four corners are rounded by `r` keeps `r`, and there is
/// nothing to say of it.
pub proof fn lemma_uniform_rounding(
    bounds: Rect,
    r: i32,
    fill: Color,
    stroke: Stroke,
    origin: Point,
)
    ensures
        node_of(
            DrawCommandView::Rect {
                bounds,
                radii: CornerRadii { nw: r, ne: r, sw: r, se: r },
                fill,
                stroke,
            },
            origin,
        )->Rect_0.corner_radius == r,
        diagnostics_of(
            DrawCommandView::Rect {
                bounds,
                radii: CornerRadii { nw: r, ne: r, sw: r, se: r },
                fill,
                stroke,
            },
        ) == Seq::<DiagnosticView>::empty(),
{
}

/// A rectangle whose corners are not rounded alike gets the largest of the
/// four radii, and exactly one diagnostic says so.
pub proof fn lemma_uneven_rounding(
    bounds: Rect,
    radii: CornerRadii,
    fill: Color,
    stroke: Stroke,
    origin: Point,
)
    requires
        !uniform_radii(radii),
    ensures
        node_of(DrawCommandView::Rect { bounds, radii, fill, stroke }, origin)->Rect_0.corner_radius
            == collapsed_radius(radii),
        collapsed_radius(radii) >= radii.nw,
        collapsed_radius(radii) >= radii.ne,
        collapsed_radius(radii) >= radii.sw,
        collapsed_radius(radii) >= radii.se,
        collapsed_radius(radii) == radii.nw || collapsed_radius(radii) == radii.ne
            || collapsed_radius(radii) == radii.sw || collapsed_radius(radii) == radii.se,
        diagnostics_of(DrawCommandView::Rect { bounds, radii, fill, stroke }) == seq![
            DiagnosticView::AsymmetricRounding,
        ],
{
}

/// A mesh that has every corner it names gives one path for each three
/// indices, in their order.
pub proof fn lemma_mesh_triangles(
    vertices: Seq<Vertex>,
    indices: Seq<u32>,
    origin: Point,
    n: nat,
)
    requires
        n <= triangle_count(indices),
        !mesh_has_stray_index(vertices, indices, n),
    ensures
        mesh_nodes(vertices, indices, origin, n).len() == n,
        forall|k: int|
            0 <= k < n ==> #[trigger] mesh_nodes(vertices, indices, origin, n)[k] == NodeView::Path(
                triangle_path(vertices, indices, k, origin),
            ),
    decreases n,
{
    if n > 0 {
        assert(triangle_known(vertices, indices, n - 1));
        assert forall|k: int| 0 <= k < n - 1 implies #[trigger] triangle_known(
            vertices,
            indices,
            k,
        ) by {}
        lemma_mesh_triangles(vertices, indices, origin, (n - 1) as nat);
    }
}

/// How many runs begin before glyph `n`.
pub open spec fn run_count(glyphs: Seq<Glyph>, n: nat) -> nat
    decreases n,
{
    if n == 0 {
        0
    } else if run_starts_at(glyphs, n - 1) {
        run_count(glyphs, (n - 1) as nat) + 1
    } else {
        run_count(glyphs, (n - 1) as nat)
    }
}

/// Whether the layout has the section of every glyph of the row.
pub open spec fn sections_known(text: TextCommandView, row: int) -> bool {
    forall|k: int|
        0 <= k < text.rows[row].glyphs.len() ==> (#[trigger] text.rows[row].glyphs[k]).section
            < text.sections.len()
}

/// Where the layout has the section of every glyph, a row gives one text
/// node for each of its runs.
pub proof fn lemma_one_node_per_run(text: TextCommandView, row: int, origin: Point, n: nat)
    requires
        n <= text.rows[row].glyphs.len(),
        sections_known(text, row),
    ensures
        row_nodes(text, row, origin, n).len() == run_count(text.rows[row].glyphs, n),
    decreases n,
{
    if n > 0 {
        lemma_one_node_per_run(text, row, origin, (n - 1) as nat);
    }
}

/// Where the run that holds glyph `i` begins.
pub open spec fn run_start(glyphs: Seq<Glyph>, i: int) -> int
    decreases i,
{
    if i <= 0 || glyphs[i - 1].section != glyphs[i].section {
        i
    } else {
        run_start(glyphs, i - 1)
    }
}

/// A run begins where `run_start` says, and every glyph from there up to
/// glyph `i` is of its section.
proof fn lemma_run_start(glyphs: Seq<Glyph>, i: int)
    requires
        0 <= i < glyphs.len(),
    ensures
        0 <= run_start(glyphs, i) <= i,
        run_starts_at(glyphs, run_start(glyphs, i)),
        forall|k: int|
            run_start(glyphs, i) <= k <= i ==> (#[trigger] glyphs[k]).section == glyphs[i].section,
    decreases i,
{
    if !(i <= 0 || glyphs[i - 1].section != glyphs[i].section) {
        lemma_run_start(glyphs, i - 1);
    }
}

/// A run whose glyphs reach up to a boundary ends at that boundary.
proof fn lemma_run_ends_at(glyphs: Seq<Glyph>, start: int, from: int, boundary: int)
    requires
        0 <= start < from <= boundary <= glyphs.len(),
        forall|k: int|
            start <= k < boundary ==> (#[trigger] glyphs[k]).section == glyphs[start].section,
        boundary == glyphs.len() || glyphs[boundary].section != glyphs[start].section,
    ensures
        run_end(glyphs, start, from) == boundary,
    decreases boundary - from,
{
    if from < boundary {
        lemma_run_ends_at(glyphs, start, from + 1, boundary);
    }
}

/// The characters of text nodes, node after node.
pub open spec fn joined_content(nodes: Seq<NodeView>) -> Seq<char>
    decreases nodes.len(),
{
    if nodes.len() == 0 {
        Seq::empty()
    } else {
        joined_content(nodes.drop_last()) + match nodes.last() {
            NodeView::Text(text) => text.content,
            _ => Seq::empty(),
        }
    }
}

/// Where the layout has the section of every glyph, the text nodes of a row
/// hold the characters of the row, each once and in order: up to any glyph
/// at which a run begins, and up to the end of the row.
pub proof fn lemma_row_keeps_characters(text: TextCommandView, row: int, origin: Point, n: nat)
    requires
        n <= text.rows[row].glyphs.len(),
        n == text.rows[row].glyphs.len() || run_starts_at(text.rows[row].glyphs, n as int),
        sections_known(text, row),
    ensures
        joined_content(row_nodes(text, row, origin, n)) == run_content(
            text.rows[row].glyphs,
            0,
            n as int,
        ),
    decreases n,
{
    let glyphs = text.rows[row].glyphs;
    if n == 0 {
        assert(joined_content(row_nodes(text, row, origin, n)) =~= run_content(glyphs, 0, 0));
    } else {
        let start = run_start(glyphs, n - 1);
        lemma_run_start(glyphs, n - 1);
        assert forall|k: int| start <= k < n implies (#[trigger] glyphs[k]).section
            == glyphs[start].section by {}
        lemma_run_ends_at(glyphs, start, start + 1, n as int);
        assert forall|k: int| start + 1 <= k < n implies !run_starts_at(glyphs, k) by {
            assert(glyphs[k].section == glyphs[start].section);
            assert(glyphs[k - 1].section == glyphs[start].section);
        }
        lemma_row_skip(text, row, origin, (start + 1) as nat, n);
        lemma_row_keeps_characters(text, row, origin, start as nat);
        let before = row_nodes(text, row, origin, start as nat);
        let node = run_node(text, row, start, origin);
        assert(glyphs[start].section < text.sections.len());
        assert(row_nodes(text, row, origin, n) == before.push(NodeView::Text(node)));
        assert(before.push(NodeView::Text(node)).drop_last() =~= before);
        assert(node.content == run_content(glyphs, start, n as int));
        assert(run_content(glyphs, 0, start) + run_content(glyphs, start, n as int) =~= run_content(
            glyphs,
            0,
            n as int,
        ));
    }
}

/// A run that does not fill its line is as wide as its glyphs advance,
/// less the last glyph where that is white space.
pub proof fn lemma_run_width(text: TextCommandView, row: int, start: int, origin: Point)
    requires
        !fills_line(
            text,
            row,
            run_end(text.rows[row].glyphs, start, start + 1),
        ),
    ensures
        ({
            let glyphs = text.rows[row].glyphs;
            let end = run_end(glyphs, start, start + 1);
            let last = glyphs[end - 1];
            let width = run_node(text, row, start, origin).text_length;
            &&& !is_white_space(last.chr) ==> width == advance_sum(glyphs, start, end)
            &&& is_white_space(last.chr) ==> width == advance_sum(glyphs, start, end)
                - last.size.x
        }),
{
}

/// Whether layer `i` is painted before layer `j`: by key, and for one key by
/// position in the frame.
pub open spec fn paints_before(layers: Seq<LayerView>, i: int, j: int) -> bool {
    layers[i].order < layers[j].order || (layers[i].order == layers[j].order && i < j)
}

/// Where a layer is inserted, every layer behind it has a greater key, and
/// the layer in front of it has not.
proof fn lemma_insert_position(layers: Seq<LayerView>, sorted: Seq<int>, order: u32, q: nat)
    requires
        q <= sorted.len(),
    ensures
        ({
            let p = insert_position(layers, sorted, order, q);
            &&& p <= q
            &&& forall|k: int| p <= k < q ==> layers[#[trigger] sorted[k]].order > order
            &&& p > 0 ==> layers[sorted[p - 1]].order <= order
        }),
    decreases q,
{
    if q > 0 && layers[sorted[q - 1]].order > order {
        lemma_insert_position(layers, sorted, order, (q - 1) as nat);
    }
}

/// Paint order holds each of the first `n` layers once, and each layer in
/// it is painted before every layer behind it: keys ascend, and layers of
/// one key keep the order of the frame.
pub proof fn lemma_paint_order(layers: Seq<LayerView>, n: nat)
    requires
        n <= layers.len(),
    ensures
        paint_order(layers, n).len() == n,
        forall|k: int| 0 <= k < n ==> 0 <= #[trigger] paint_order(layers, n)[k] < n,
        forall|i: int| 0 <= i < n ==> paint_order(layers, n).contains(i),
        forall|a: int, b: int|
            0 <= a < b < n ==> paints_before(
                layers,
                #[trigger] paint_order(layers, n)[a],
                #[trigger] paint_order(layers, n)[b],
            ),
    decreases n,
{
    if n > 0 {
        let before = paint_order(layers, (n - 1) as nat);
        let after = paint_order(layers, n);
        let order = layers[n - 1].order;
        let p = insert_position(layers, before, order, before.len()) as int;
        lemma_paint_order(layers, (n - 1) as nat);
        lemma_insert_position(layers, before, order, before.len());
        assert(after == before.insert(p, n - 1));
        assert forall|i: int| 0 <= i < n implies after.contains(i) by {
            if i == n - 1 {
                assert(after[p] == i);
            } else {
                assert(before.contains(i));
                let k = choose|k: int| 0 <= k < before.len() && before[k] == i;
                if k < p {
                    assert(after[k] == i);
                } else {
                    assert(after[k + 1] == i);
                }
            }
        }
        assert forall|k: int| 0 <= k < p implies layers[#[trigger] before[k]].order <= order by {
            if k < p - 1 {
                assert(paints_before(layers, before[k], before[p - 1]));
            }
        }
        assert forall|a: int, b: int| 0 <= a < b < n implies paints_before(
            layers,
            #[trigger] after[a],
            #[trigger] after[b],
        ) by {
            if b < p {
                assert(paints_before(layers, before[a], before[b]));
            } else if b == p {
                assert(after[a] == before[a]);
                assert(layers[before[a]].order <= order);
            } else if a < p {
                assert(paints_before(layers, before[a], before[b - 1]));
            } else if a == p {
                assert(after[b] == before[b - 1]);
                assert(layers[before[b - 1]].order > order);
            } else {
                assert(paints_before(layers, before[a - 1], before[b - 1]));
            }
        }
    }
}

/// Whether `layer` is the layer of that key and identity.
pub open spec fn is_layer(layer: LayerView, order: u32, id: u64) -> bool {
    layer.order == order && layer.id == id
}

/// Whether no two layers of the frame have the same key and identity.
pub open spec fn layers_differ(frame: FrameView) -> bool {
    forall|i: int, j: int|
        0 <= i < j < frame.layers.len() ==> !is_layer(
            #[trigger] frame.layers[i],
            (#[trigger] frame.layers[j]).order,
            frame.layers[j].id,
        )
}

/// Looking from `from` on, the marks of a frame give for a key and identity
/// the length of the first layer that has them, and zero where none has.
proof fn lemma_marked_length_from(before: FrameView, order: u32, id: u64, from: nat, i: int)
    requires
        from <= i < before.layers.len(),
        is_layer(before.layers[i], order, id),
        forall|k: int| from <= k < i ==> !is_layer(#[trigger] before.layers[k], order, id),
        before.layers[i].commands.len() <= usize::MAX,
    ensures
        marked_length(marks_of(before), order, id, from) == before.layers[i].commands.len(),
    decreases i - from,
{
    if from < i {
        assert(!is_layer(before.layers[from as int], order, id));
        lemma_marked_length_from(before, order, id, from + 1, i);
    }
}

/// No mark is found for a key and identity that no layer of the frame has.
proof fn lemma_unmarked_from(before: FrameView, order: u32, id: u64, from: nat)
    requires
        forall|k: int| 0 <= k < before.layers.len() ==> !is_layer(
            #[trigger] before.layers[k],
            order,
            id,
        ),
    ensures
        marked_length(marks_of(before), order, id, from) == 0,
    decreases before.layers.len() - from,
{
    if from < before.layers.len() {
        assert(!is_layer(before.layers[from as int], order, id));
        lemma_unmarked_from(before, order, id, from + 1);
    }
}

/// In a frame whose layers differ, the mark of each layer is its own length:
/// a layer that has only gained commands since the marks were taken
/// contributes what it holds from its old length on, which is exactly what
/// it has gained.
pub proof fn lemma_layer_gains_from_its_old_length(before: FrameView, i: int, layer: LayerView)
    requires
        layers_differ(before),
        0 <= i < before.layers.len(),
        before.layers[i].commands.len() <= usize::MAX,
        is_layer(layer, before.layers[i].order, before.layers[i].id),
        before.layers[i].commands.len() <= layer.commands.len(),
    ensures
        marked_length(marks_of(before), layer.order, layer.id, 0)
            == before.layers[i].commands.len(),
        appended(marks_of(before), layer) == layer.commands.skip(
            before.layers[i].commands.len() as int,
        ),
        layer.commands.take(before.layers[i].commands.len() as int) == before.layers[i].commands
            ==> layer.commands == before.layers[i].commands + appended(marks_of(before), layer),
{
    assert forall|k: int| 0 <= k < i implies !is_layer(
        #[trigger] before.layers[k],
        layer.order,
        layer.id,
    ) by {
        assert(!is_layer(before.layers[k], before.layers[i].order, before.layers[i].id));
    }
    lemma_marked_length_from(before, layer.order, layer.id, 0, i);
    let old_length = before.layers[i].commands.len() as int;
    assert(layer.commands =~= layer.commands.take(old_length) + layer.commands.skip(old_length));
}

/// A layer that came after the marks were taken contributes all that it
/// holds.
pub proof fn lemma_new_layer_is_whole(before: FrameView, layer: LayerView)
    requires
        forall|k: int| 0 <= k < before.layers.len() ==> !is_layer(
            #[trigger] before.layers[k],
            layer.order,
            layer.id,
        ),
    ensures
        appended(marks_of(before), layer) == layer.commands,
{
    lemma_unmarked_from(before, layer.order, layer.id, 0);
    assert(layer.commands.skip(0) =~= layer.commands);
}

/// A layer that was not marked has gained all the commands it holds: the
/// commands of a whole frame are those of its layers, uncut.
pub proof fn lemma_unmarked_layer_is_whole(layer: LayerView)
    ensures
        appended(Seq::<LayerMark>::empty(), layer) == layer.commands,
{
    assert(layer.commands.skip(0) =~= layer.commands);
}

/// The view box of a snapshot is the screen, corner and size, and that is
/// what the document's root says.
pub proof fn lemma_snapshot_shows_the_screen(frame: FrameView)
    ensures
        snapshot_of(frame).view_box == viewbox_of(frame.screen),
        snapshot_of(frame).view_box.x == frame.screen.min.x,
        snapshot_of(frame).view_box.y == frame.screen.min.y,
        snapshot_of(frame).view_box.width == frame.screen.max.x - frame.screen.min.x,
        snapshot_of(frame).view_box.height == frame.screen.max.y - frame.screen.min.y,
        document_markup_of(snapshot_of(frame)).attributes["viewBox"@] == view_box_text(
            viewbox_of(frame.screen),
        ),
{
}

/// The bounding box reaches at least as far as what each command paints,
/// and where there is a command, no further than one of them on each side.
pub proof fn lemma_bounding_box(commands: Seq<ClippedView>, n: nat)
    requires
        n <= commands.len(),
    ensures
        forall|i: int|
            0 <= i < n ==> {
                &&& bounding_box(commands, n).min.x <= (#[trigger] commands[i]).bounds.min.x
                &&& bounding_box(commands, n).min.y <= commands[i].bounds.min.y
                &&& bounding_box(commands, n).max.x >= commands[i].bounds.max.x
                &&& bounding_box(commands, n).max.y >= commands[i].bounds.max.y
            },
        n > 0 ==> exists|i: int|
            0 <= i < n && bounding_box(commands, n).min.x == (#[trigger] commands[i]).bounds.min.x,
        n > 0 ==> exists|i: int|
            0 <= i < n && bounding_box(commands, n).min.y == (#[trigger] commands[i]).bounds.min.y,
    decreases n,
{
    if n > 0 {
        lemma_bounding_box(commands, (n - 1) as nat);
        let before = bounding_box(commands, (n - 1) as nat);
        let last = commands[n - 1].bounds;
        if n == 1 || last.min.x <= before.min.x {
            assert(bounding_box(commands, n).min.x == commands[n - 1].bounds.min.x);
        } else {
            let i = choose|i: int|
                0 <= i < n - 1 && before.min.x == (#[trigger] commands[i]).bounds.min.x;
            assert(bounding_box(commands, n).min.x == commands[i].bounds.min.x);
        }
        if n == 1 || last.min.y <= before.min.y {
            assert(bounding_box(commands, n).min.y == commands[n - 1].bounds.min.y);
        } else {
            let i = choose|i: int|
                0 <= i < n - 1 && before.min.y == (#[trigger] commands[i]).bounds.min.y;
            assert(bounding_box(commands, n).min.y == commands[i].bounds.min.y);
        }
    }
}

/// The view box of a scoped document begins at (0, 0) and has no negative
/// size. Where something was painted, it is as large as what was painted,
/// nothing that was painted begins left of or above zero, and something
/// begins at zero on each axis.
pub proof fn lemma_scope_begins_at_zero(marks: Seq<LayerMark>, frame: FrameView)
    ensures
        scoped_of(marks, frame).view_box.x == 0,
        scoped_of(marks, frame).view_box.y == 0,
        scoped_of(marks, frame).view_box.width >= 0,
        scoped_of(marks, frame).view_box.height >= 0,
        ({
            let commands = scope_commands(marks, frame);
            let bounds = bounding_box(commands, commands.len());
            let origin = scope_origin(bounds);
            !bounds.covers_nothing() ==> {
                &&& scoped_of(marks, frame).view_box.width == bounds.max.x - bounds.min.x
                &&& scoped_of(marks, frame).view_box.height == bounds.max.y - bounds.min.y
                &&& forall|i: int|
                    0 <= i < commands.len() ==> shifted_rect(
                        (#[trigger] commands[i]).bounds,
                        origin,
                    ).x >= 0 && shifted_rect(commands[i].bounds, origin).y >= 0
                &&& exists|i: int|
                    0 <= i < commands.len() && shifted_rect(
                        (#[trigger] commands[i]).bounds,
                        origin,
                    ).x == 0
                &&& exists|i: int|
                    0 <= i < commands.len() && shifted_rect(
                        (#[trigger] commands[i]).bounds,
                        origin,
                    ).y == 0
            }
        }),
{
    let commands = scope_commands(marks, frame);
    let bounds = bounding_box(commands, commands.len());
    let origin = scope_origin(bounds);
    lemma_bounding_box(commands, commands.len());
    if !bounds.covers_nothing() {
        assert(commands.len() > 0);
        let i = choose|i: int|
            0 <= i < commands.len() && bounds.min.x == (#[trigger] commands[i]).bounds.min.x;
        assert(shifted_rect(commands[i].bounds, origin).x == 0);
        let j = choose|j: int|
            0 <= j < commands.len() && bounds.min.y == (#[trigger] commands[j]).bounds.min.y;
        assert(shifted_rect(commands[j].bounds, origin).y == 0);
    }
}

} // verus!
