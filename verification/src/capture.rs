//! Reading a frame: its layers in paint order, the commands of a whole
//! frame, and the commands that a stretch of rendering has added to it.

use crate::clip::{group_at, grouped_diagnostics, groups_of, Grouping};
use crate::command::{
    borrowed_views, ClippedDrawCommand, ClippedView, Frame, FrameView, Layer, LayerView,
};
use crate::geometry::{
    nothing_rect, rect_to_viewbox, union_rect, viewbox_of, DocRect, Point, Rect, SpecRect,
};
use crate::laws::{lemma_paint_order, paints_before};
use crate::node::{diagnostic_views, Diagnostic, DocumentView, VectorDocument};
use vstd::prelude::*;

verus! {

/// Where a layer of key `order` goes among layers that are already in paint
/// order, looking down from position `p`: behind every layer whose key is
/// not greater.
pub open spec fn insert_position(
    layers: Seq<LayerView>,
    sorted: Seq<int>,
    order: u32,
    p: nat,
) -> nat
    decreases p,
{
    if p > 0 && layers[sorted[p - 1]].order > order {
        insert_position(layers, sorted, order, (p - 1) as nat)
    } else {
        p
    }
}

/// The first `n` layers by their positions in the frame, in paint order:
/// by ascending key, and layers of one key as the frame lists them.
pub open spec fn paint_order(layers: Seq<LayerView>, n: nat) -> Seq<int>
    decreases n,
{
    if n == 0 {
        Seq::empty()
    } else {
        let before = paint_order(layers, (n - 1) as nat);
        before.insert(
            insert_position(layers, before, layers[n - 1].order, before.len()) as int,
            n - 1,
        )
    }
}

/// Positions as mathematical integers.
pub open spec fn positions(indices: Seq<usize>) -> Seq<int> {
    indices.map_values(|i: usize| i as int)
}

/// How many commands a layer held when it was marked.
#[derive(Clone, Copy, Debug, PartialEq, Eq, Structural)]
pub struct LayerMark {
    pub order: u32,
    pub id: u64,
    pub length: usize,
}

/// The marks of the layers of a frame, as the frame lists them.
pub open spec fn marks_of(frame: FrameView) -> Seq<LayerMark> {
    Seq::new(
        frame.layers.len(),
        |i: int|
            LayerMark {
                order: frame.layers[i].order,
                id: frame.layers[i].id,
                length: frame.layers[i].commands.len() as usize,
            },
    )
}

/// How many commands the layer of that key and identity held when it was
/// marked, going by the first mark for it from `from` on; zero for a layer
/// that was not there.
pub open spec fn marked_length(marks: Seq<LayerMark>, order: u32, id: u64, from: nat) -> nat
    decreases marks.len() - from,
{
    if from >= marks.len() {
        0
    } else if marks[from as int].order == order && marks[from as int].id == id {
        marks[from as int].length as nat
    } else {
        marked_length(marks, order, id, from + 1)
    }
}

/// The commands that a layer has gained since it was marked. A layer that
/// has fewer commands than its mark has gained none.
pub open spec fn appended(marks: Seq<LayerMark>, layer: LayerView) -> Seq<ClippedView> {
    let before = marked_length(marks, layer.order, layer.id, 0);
    if before <= layer.commands.len() {
        layer.commands.skip(before as int)
    } else {
        Seq::empty()
    }
}

/// What the first `k` layers in paint order have gained since the marks,
/// layer after layer.
pub open spec fn gained_upto(marks: Seq<LayerMark>, frame: FrameView, k: nat) -> Seq<ClippedView>
    decreases k,
{
    if k == 0 {
        Seq::empty()
    } else {
        gained_upto(marks, frame, (k - 1) as nat) + appended(
            marks,
            frame.layers[paint_order(frame.layers, frame.layers.len())[k - 1]],
        )
    }
}

/// What the frame has gained since the marks, in paint order.
pub open spec fn scope_commands(marks: Seq<LayerMark>, frame: FrameView) -> Seq<ClippedView> {
    gained_upto(marks, frame, frame.layers.len())
}

/// All commands of the frame, in paint order.
pub open spec fn frame_commands(frame: FrameView) -> Seq<ClippedView> {
    scope_commands(Seq::empty(), frame)
}

/// The rectangle that covers what the first `n` commands paint.
pub open spec fn bounding_box(commands: Seq<ClippedView>, n: nat) -> Rect
    decreases n,
{
    if n == 0 {
        nothing_rect()
    } else {
        union_rect(bounding_box(commands, (n - 1) as nat), commands[n - 1].bounds)
    }
}

/// The point that becomes the zero of a scoped document: the top left corner
/// of what was painted, or (0, 0) where nothing was.
pub open spec fn scope_origin(bounds: Rect) -> Point {
    if bounds.covers_nothing() {
        Point::zero()
    } else {
        bounds.min
    }
}

/// The view box of a scoped document: what was painted, moved to (0, 0); an
/// empty box there where nothing was.
pub open spec fn scope_view_box(bounds: Rect) -> SpecRect {
    if bounds.covers_nothing() {
        SpecRect { x: 0, y: 0, width: 0, height: 0 }
    } else {
        SpecRect {
            x: 0,
            y: 0,
            width: bounds.max.x - bounds.min.x,
            height: bounds.max.y - bounds.min.y,
        }
    }
}

/// The document of a whole frame: it shows the screen, and holds every
/// command where the host put it.
pub open spec fn snapshot_of(frame: FrameView) -> DocumentView {
    let commands = frame_commands(frame);
    DocumentView {
        view_box: viewbox_of(frame.screen),
        groups: groups_of(commands, Point::zero(), commands.len()),
    }
}

/// The document of what the frame has gained since the marks, moved so that
/// what was painted begins at (0, 0).
pub open spec fn scoped_of(marks: Seq<LayerMark>, frame: FrameView) -> DocumentView {
    let commands = scope_commands(marks, frame);
    let bounds = bounding_box(commands, commands.len());
    DocumentView {
        view_box: scope_view_box(bounds),
        groups: groups_of(commands, scope_origin(bounds), commands.len()),
    }
}

/// A document, and what there is to say of how it came about.
#[derive(Debug, PartialEq, Eq)]
pub struct Export {
    pub document: VectorDocument,
    pub diagnostics: Vec<Diagnostic>,
}

/// The views of the layers of a frame, one by one.
proof fn lemma_frame_view(frame: &Frame)
    ensures
        frame@.layers.len() == frame.layers@.len(),
        forall|i: int|
            0 <= i < frame.layers@.len() ==> #[trigger] frame@.layers[i] == frame.layers@[i]@,
{
}

/// The positions of the frame's layers in paint order: each position once,
/// by ascending key, and positions of one key in ascending order.
pub fn sorted_layer_ids(frame: &Frame) -> (out: Vec<usize>)
    ensures
        positions(out@) == paint_order(frame@.layers, frame@.layers.len()),
        out@.len() == frame@.layers.len(),
        forall|k: int| 0 <= k < out@.len() ==> #[trigger] out@[k] < frame@.layers.len(),
        forall|i: int| 0 <= i < frame@.layers.len() ==> positions(out@).contains(i),
        forall|a: int, b: int|
            0 <= a < b < out@.len() ==> paints_before(
                frame@.layers,
                #[trigger] out@[a] as int,
                #[trigger] out@[b] as int,
            ),
{
    proof {
        lemma_frame_view(frame);
        lemma_paint_order(frame@.layers, frame@.layers.len());
    }
    let ghost layers = frame@.layers;
    let mut out: Vec<usize> = Vec::new();
    let mut n: usize = 0;
    proof {
        assert(positions(out@) =~= paint_order(layers, 0));
    }
    while n < frame.layers.len()
        invariant
            layers == frame@.layers,
            layers.len() == frame.layers@.len(),
            forall|i: int|
                0 <= i < frame.layers@.len() ==> #[trigger] layers[i] == frame.layers@[i]@,
            n <= frame.layers.len(),
            out@.len() == n,
            forall|k: int| 0 <= k < out@.len() ==> #[trigger] out@[k] < n,
            positions(out@) == paint_order(layers, n as nat),
        decreases frame.layers.len() - n,
    {
        let order: u32 = frame.layers[n].order;
        let mut p: usize = out.len();
        while p > 0 && frame.layers[out[p - 1]].order > order
            invariant
                layers.len() == frame.layers@.len(),
                forall|i: int|
                    0 <= i < frame.layers@.len() ==> #[trigger] layers[i] == frame.layers@[i]@,
                n < frame.layers.len(),
                p <= out@.len(),
                forall|k: int| 0 <= k < out@.len() ==> #[trigger] out@[k] < n,
                insert_position(layers, positions(out@), order, out@.len()) == insert_position(
                    layers,
                    positions(out@),
                    order,
                    p as nat,
                ),
            decreases p,
        {
            proof {
                assert(positions(out@)[p - 1] == out@[p - 1]);
            }
            p = p - 1;
        }
        proof {
            if p > 0 {
                assert(positions(out@)[p - 1] == out@[p - 1]);
            }
            assert(insert_position(layers, positions(out@), order, p as nat) == p);
        }
        let ghost before = out@;
        out.insert(p, n);
        proof {
            assert(positions(out@) =~= positions(before).insert(p as int, n as int));
            assert forall|k: int| 0 <= k < out@.len() implies #[trigger] out@[k] < n + 1 by {
                if k < p {
                    assert(out@[k] == before[k]);
                } else if k > p {
                    assert(out@[k] == before[k - 1]);
                }
            }
        }
        n = n + 1;
    }
    proof {
        assert forall|a: int, b: int| 0 <= a < b < out@.len() implies paints_before(
            layers,
            #[trigger] out@[a] as int,
            #[trigger] out@[b] as int,
        ) by {
            assert(positions(out@)[a] == out@[a]);
            assert(positions(out@)[b] == out@[b]);
        }
    }
    out
}

/// The layers of the frame, in paint order.
pub fn capture<'a>(frame: &'a Frame) -> (out: Vec<&'a Layer>)
    ensures
        out@.len() == frame@.layers.len(),
        forall|k: int|
            0 <= k < out@.len() ==> (#[trigger] out@[k])@ == frame@.layers[paint_order(
                frame@.layers,
                frame@.layers.len(),
            )[k]],
{
    proof {
        lemma_frame_view(frame);
    }
    let ids = sorted_layer_ids(frame);
    let mut out: Vec<&'a Layer> = Vec::new();
    let mut k: usize = 0;
    while k < ids.len()
        invariant
            frame@.layers.len() == frame.layers@.len(),
            forall|i: int|
            0 <= i < frame.layers@.len() ==> #[trigger] frame@.layers[i] == frame.layers@[i]@,
            ids@.len() == frame@.layers.len(),
            forall|j: int| 0 <= j < ids@.len() ==> #[trigger] ids@[j] < frame@.layers.len(),
            positions(ids@) == paint_order(frame@.layers, frame@.layers.len()),
            k <= ids.len(),
            out@.len() == k,
            forall|j: int|
                0 <= j < k ==> (#[trigger] out@[j])@ == frame@.layers[paint_order(
                    frame@.layers,
                    frame@.layers.len(),
                )[j]],
        decreases ids.len() - k,
    {
        proof {
            assert(positions(ids@)[k as int] == ids@[k as int]);
        }
        out.push(&frame.layers[ids[k]]);
        k = k + 1;
    }
    out
}

/// Records how many commands each layer of the frame holds.
pub fn mark(frame: &Frame) -> (out: Vec<LayerMark>)
    ensures
        out@ == marks_of(frame@),
{
    proof {
        lemma_frame_view(frame);
    }
    let mut out: Vec<LayerMark> = Vec::new();
    let mut i: usize = 0;
    while i < frame.layers.len()
        invariant
            frame@.layers.len() == frame.layers@.len(),
            forall|j: int|
                0 <= j < frame.layers@.len() ==> #[trigger] frame@.layers[j] == frame.layers@[j]@,
            i <= frame.layers.len(),
            out@.len() == i,
            forall|j: int| 0 <= j < i ==> #[trigger] out@[j] == marks_of(frame@)[j],
        decreases frame.layers.len() - i,
    {
        let layer = &frame.layers[i];
        out.push(LayerMark { order: layer.order, id: layer.id, length: layer.commands.len() });
        i = i + 1;
    }
    proof {
        assert(out@ =~= marks_of(frame@));
    }
    out
}

/// How many commands the layer of that key and identity held when it was
/// marked; zero for a layer that was not there.
pub fn marked_length_of(marks: &Vec<LayerMark>, order: u32, id: u64) -> (out: usize)
    ensures
        out == marked_length(marks@, order, id, 0),
{
    let mut i: usize = 0;
    while i < marks.len()
        invariant
            i <= marks.len(),
            marked_length(marks@, order, id, 0) == marked_length(marks@, order, id, i as nat),
        decreases marks.len() - i,
    {
        if marks[i].order == order && marks[i].id == id {
            return marks[i].length;
        }
        i = i + 1;
    }
    0
}

/// What the frame has gained since the marks, in paint order.
pub fn gather<'a>(marks: &Vec<LayerMark>, frame: &'a Frame) -> (out: Vec<&'a ClippedDrawCommand>)
    ensures
        borrowed_views(out@) == scope_commands(marks@, frame@),
{
    let layers = capture(frame);
    let mut out: Vec<&'a ClippedDrawCommand> = Vec::new();
    let mut k: usize = 0;
    proof {
        assert(borrowed_views(out@) =~= gained_upto(marks@, frame@, 0));
    }
    while k < layers.len()
        invariant
            layers@.len() == frame@.layers.len(),
            forall|j: int|
                0 <= j < layers@.len() ==> (#[trigger] layers@[j])@ == frame@.layers[paint_order(
                    frame@.layers,
                    frame@.layers.len(),
                )[j]],
            k <= layers.len(),
            borrowed_views(out@) == gained_upto(marks@, frame@, k as nat),
        decreases layers.len() - k,
    {
        let layer: &'a Layer = layers[k];
        let before: usize = marked_length_of(marks, layer.order, layer.id);
        let ghost gathered = out@;
        let mut j: usize = before;
        while j < layer.commands.len()
            invariant
                before <= j,
                j <= layer.commands.len() || j == before,
                before <= layer.commands.len() ==> borrowed_views(out@) == borrowed_views(gathered)
                    + layer@.commands.subrange(before as int, j as int),
                before > layer.commands.len() ==> out@ == gathered,
            decreases layer.commands.len() - j,
        {
            let ghost so_far = out@;
            out.push(&layer.commands[j]);
            proof {
                assert(layer@.commands[j as int] == layer.commands@[j as int]@);
                assert(borrowed_views(out@) =~= borrowed_views(so_far).push(
                    layer@.commands[j as int],
                ));
                assert(layer@.commands.subrange(before as int, j + 1) =~= layer@.commands.subrange(
                    before as int,
                    j as int,
                ).push(layer@.commands[j as int]));
            }
            j = j + 1;
        }
        proof {
            if before <= layer.commands.len() {
                assert(layer@.commands.subrange(before as int, j as int) =~= layer@.commands.skip(
                    before as int,
                ));
            } else {
                assert(borrowed_views(out@) =~= borrowed_views(gathered) + Seq::<
                    ClippedView,
                >::empty());
            }
            assert(borrowed_views(out@) == borrowed_views(gathered) + appended(marks@, layer@));
        }
        k = k + 1;
    }
    out
}

/// The rectangle that covers what the commands paint.
pub fn bounds_of(commands: &Vec<&ClippedDrawCommand>) -> (out: Rect)
    ensures
        out == bounding_box(borrowed_views(commands@), commands@.len()),
{
    let mut total: Rect = Rect::nothing();
    let mut i: usize = 0;
    while i < commands.len()
        invariant
            i <= commands.len(),
            total == bounding_box(borrowed_views(commands@), i as nat),
        decreases commands.len() - i,
    {
        let entry: &ClippedDrawCommand = commands[i];
        proof {
            assert(borrowed_views(commands@)[i as int] == entry@);
        }
        total = total.union(&entry.bounds);
        i = i + 1;
    }
    total
}

/// The document of a whole frame.
pub fn snapshot_document(frame: &Frame) -> (out: Export)
    ensures
        out.document@ == snapshot_of(frame@),
        out.document.view_box@ == viewbox_of(frame@.screen),
        diagnostic_views(out.diagnostics@) == grouped_diagnostics(
            frame_commands(frame@),
            frame_commands(frame@).len(),
        ),
{
    let marks: Vec<LayerMark> = Vec::new();
    let commands = gather(&marks, frame);
    proof {
        assert(marks@ =~= Seq::<LayerMark>::empty());
        assert(borrowed_views(commands@).len() == commands@.len());
    }
    let Grouping { groups, diagnostics } = group_at(&commands, Point::origin());
    Export {
        document: VectorDocument { view_box: rect_to_viewbox(frame.screen), groups },
        diagnostics,
    }
}

/// The document of what `after` has gained since the marks were taken, or
/// nothing where no capture is wanted.
pub fn scope_document(
    marks: &Vec<LayerMark>,
    after: &Frame,
    do_capture: bool,
) -> (out: Option<Export>)
    ensures
        do_capture <==> out is Some,
        do_capture ==> out->0.document@ == scoped_of(marks@, after@),
        do_capture ==> out->0.document.view_box.x == 0 && out->0.document.view_box.y == 0,
        do_capture ==> diagnostic_views(out->0.diagnostics@) == grouped_diagnostics(
            scope_commands(marks@, after@),
            scope_commands(marks@, after@).len(),
        ),
{
    if !do_capture {
        return None;
    }
    let commands = gather(marks, after);
    proof {
        assert(borrowed_views(commands@).len() == commands@.len());
    }
    let bounds = bounds_of(&commands);
    let nothing: bool = bounds.is_nothing();
    let origin: Point = if nothing {
        Point::origin()
    } else {
        bounds.min
    };
    let view_box: DocRect = if nothing {
        DocRect { x: 0, y: 0, width: 0, height: 0 }
    } else {
        DocRect {
            x: 0,
            y: 0,
            width: bounds.max.x as i64 - bounds.min.x as i64,
            height: bounds.max.y as i64 - bounds.min.y as i64,
        }
    };
    let Grouping { groups, diagnostics } = group_at(&commands, origin);
    Some(Export { document: VectorDocument { view_box, groups }, diagnostics })
}

} // verus!
