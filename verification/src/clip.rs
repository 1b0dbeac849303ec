//! Clip grouping: a stream of clipped commands becomes a sequence of groups,
//! one for each run of consecutive commands under the same clip rectangle.
//!
//! Commands are never reordered. Each group gets the next number, also where
//! a later run returns to a rectangle that was seen before.

use crate::command::{borrowed_views, clipped_views, ClippedDrawCommand, ClippedView};
use crate::convert::{convert_at, diagnostics_of, node_of, Conversion};
use crate::geometry::{shifted_rect, Point, Rect};
use crate::laws::{all_children, lemma_group_count, lemma_groups_hold_all};
use crate::node::{
    diagnostic_views, group_views, node_views, ClipGroup, ClipGroupView, Diagnostic,
    DiagnosticView, NodeView, VectorNode,
};
use vstd::prelude::*;

verus! {

/// Whether a run of equal clip rectangles begins at command `i`.
pub open spec fn clip_run_starts_at(commands: Seq<ClippedView>, i: int) -> bool {
    0 <= i < commands.len() && (i == 0 || commands[i - 1].clip != commands[i].clip)
}

/// How many runs of equal clip rectangles begin before command `n`.
pub open spec fn clip_run_count(commands: Seq<ClippedView>, n: nat) -> nat
    decreases n,
{
    if n == 0 {
        0
    } else if clip_run_starts_at(commands, n - 1) {
        clip_run_count(commands, (n - 1) as nat) + 1
    } else {
        clip_run_count(commands, (n - 1) as nat)
    }
}

/// The groups of the first `n` commands. A command that begins a run opens
/// the next group; any other joins the group that is open.
pub open spec fn groups_of(commands: Seq<ClippedView>, origin: Point, n: nat) -> Seq<ClipGroupView>
    decreases n,
{
    if n == 0 {
        Seq::empty()
    } else {
        let before = groups_of(commands, origin, (n - 1) as nat);
        let node = node_of(commands[n - 1].command, origin);
        if clip_run_starts_at(commands, n - 1) {
            before.push(
                ClipGroupView {
                    id: before.len() as int,
                    region: shifted_rect(commands[n - 1].clip, origin),
                    children: seq![node],
                },
            )
        } else {
            before.update(
                before.len() - 1,
                ClipGroupView { children: before.last().children.push(node), ..before.last() },
            )
        }
    }
}

/// The conversions of the commands, command after command.
pub open spec fn converted(commands: Seq<ClippedView>, origin: Point) -> Seq<NodeView> {
    Seq::new(commands.len(), |i: int| node_of(commands[i].command, origin))
}

/// The diagnostics of the first `n` commands, command after command.
pub open spec fn grouped_diagnostics(commands: Seq<ClippedView>, n: nat) -> Seq<DiagnosticView>
    decreases n,
{
    if n == 0 {
        Seq::empty()
    } else {
        grouped_diagnostics(commands, (n - 1) as nat) + diagnostics_of(commands[n - 1].command)
    }
}

/// The groups of a command stream, and what there is to say of how they
/// came about.
#[derive(Debug, PartialEq, Eq)]
pub struct Grouping {
    pub groups: Vec<ClipGroup>,
    pub diagnostics: Vec<Diagnostic>,
}

/// Groups the commands by clip rectangle, for a document whose zero is
/// `origin`.
pub fn group_at(commands: &Vec<&ClippedDrawCommand>, origin: Point) -> (out: Grouping)
    ensures
        group_views(out.groups@) == groups_of(borrowed_views(commands@), origin, commands@.len()),
        diagnostic_views(out.diagnostics@) == grouped_diagnostics(
            borrowed_views(commands@),
            commands@.len(),
        ),
        out.groups@.len() == clip_run_count(borrowed_views(commands@), commands@.len()),
        all_children(group_views(out.groups@)) == converted(borrowed_views(commands@), origin),
{
    let ghost views = borrowed_views(commands@);
    let mut done: Vec<ClipGroup> = Vec::new();
    let mut diagnostics: Vec<Diagnostic> = Vec::new();
    let mut open_children: Vec<VectorNode> = Vec::new();
    let mut open_clip: Rect = Rect::nothing();
    let mut i: usize = 0;
    proof {
        assert(group_views(done@) =~= groups_of(views, origin, 0));
        assert(diagnostic_views(diagnostics@) =~= grouped_diagnostics(views, 0));
    }
    while i < commands.len()
        invariant
            views == borrowed_views(commands@),
            i <= commands.len(),
            i == 0 ==> done@.len() == 0 && open_children@.len() == 0,
            i > 0 ==> open_clip == views[i - 1].clip,
            i > 0 ==> groups_of(views, origin, i as nat) == group_views(done@).push(
                ClipGroupView {
                    id: done@.len() as int,
                    region: shifted_rect(open_clip, origin),
                    children: node_views(open_children@),
                },
            ),
            diagnostic_views(diagnostics@) == grouped_diagnostics(views, i as nat),
        decreases commands.len() - i,
    {
        let entry: &ClippedDrawCommand = commands[i];
        let ghost done_before = done@;
        let starts: bool = i == 0 || !(entry.clip == open_clip);
        proof {
            assert(views[i as int] == entry@);
            assert(starts == clip_run_starts_at(views, i as int));
        }
        if starts {
            if i > 0 {
                let closed = ClipGroup {
                    id: done.len(),
                    region: open_clip.shift(origin),
                    children: open_children,
                };
                done.push(closed);
                proof {
                    assert(group_views(done@) =~= group_views(done_before).push(closed@));
                }
            }
            open_children = Vec::new();
            open_clip = entry.clip;
        }
        let Conversion { node, diagnostics: mut found } = convert_at(&entry.command, origin);
        let ghost kept = open_children@;
        let ghost notes_before = diagnostics@;
        let ghost found_before = found@;
        open_children.push(node);
        diagnostics.append(&mut found);
        proof {
            assert(node_views(open_children@) =~= node_views(kept).push(node@));
            assert(diagnostic_views(diagnostics@) =~= diagnostic_views(notes_before)
                + diagnostic_views(found_before));
            if starts {
                assert(node_views(open_children@) =~= seq![node@]);
                assert(group_views(done@) =~= groups_of(views, origin, i as nat));
            }
            assert(groups_of(views, origin, (i + 1) as nat) =~= group_views(done@).push(
                ClipGroupView {
                    id: done@.len() as int,
                    region: shifted_rect(open_clip, origin),
                    children: node_views(open_children@),
                },
            ));
        }
        i = i + 1;
    }
    if i > 0 {
        let ghost done_before = done@;
        let closed = ClipGroup {
            id: done.len(),
            region: open_clip.shift(origin),
            children: open_children,
        };
        done.push(closed);
        proof {
            assert(group_views(done@) =~= group_views(done_before).push(closed@));
        }
    }
    proof {
        lemma_group_count(views, origin, commands@.len());
        lemma_groups_hold_all(views, origin, commands@.len());
    }
    Grouping { groups: done, diagnostics }
}

/// The commands of a list, borrowed one by one.
pub fn borrow_all<'a>(commands: &'a Vec<ClippedDrawCommand>) -> (out: Vec<&'a ClippedDrawCommand>)
    ensures
        out@.len() == commands@.len(),
        borrowed_views(out@) == clipped_views(commands@),
{
    let mut out: Vec<&'a ClippedDrawCommand> = Vec::new();
    let mut i: usize = 0;
    while i < commands.len()
        invariant
            i <= commands.len(),
            out@.len() == i,
            forall|k: int| 0 <= k < i ==> *(#[trigger] out@[k]) == commands@[k],
        decreases commands.len() - i,
    {
        out.push(&commands[i]);
        i = i + 1;
    }
    proof {
        assert(borrowed_views(out@) =~= clipped_views(commands@));
    }
    out
}

/// Groups the commands by clip rectangle, leaving coordinates as they are.
pub fn group(commands: &Vec<ClippedDrawCommand>) -> (out: Grouping)
    ensures
        group_views(out.groups@) == groups_of(
            clipped_views(commands@),
            Point::zero(),
            commands@.len(),
        ),
        diagnostic_views(out.diagnostics@) == grouped_diagnostics(
            clipped_views(commands@),
            commands@.len(),
        ),
        out.groups@.len() == clip_run_count(clipped_views(commands@), commands@.len()),
        all_children(group_views(out.groups@)) == converted(
            clipped_views(commands@),
            Point::zero(),
        ),
{
    let borrowed = borrow_all(commands);
    group_at(&borrowed, Point::origin())
}

} // verus!
