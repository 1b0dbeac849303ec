use egui_export_svg::clip::{borrow_all, group, group_at};
use egui_export_svg::command::{ClippedDrawCommand, CornerRadii, DrawCommand};
use egui_export_svg::geometry::{Color, DocPoint, DocRect, Point, Rect, Stroke};
use egui_export_svg::node::{CircleNode, ClipGroup, Diagnostic, RectNode, VectorNode};

fn at(x: i32, y: i32) -> Point {
    Point { x, y }
}

fn clip_a() -> Rect {
    Rect { min: at(0, 0), max: at(100, 100) }
}

fn clip_b() -> Rect {
    Rect { min: at(10, 10), max: at(50, 50) }
}

fn circle(radius: i32) -> DrawCommand {
    DrawCommand::Circle { center: at(5, 5), radius, fill: Color::rgb(0, 0, 255), stroke: Stroke::none() }
}

fn circle_node(radius: i32, x: i64, y: i64) -> VectorNode {
    VectorNode::Circle(CircleNode {
        center: DocPoint { x, y },
        radius,
        fill: Color::rgb(0, 0, 255),
        stroke: None,
    })
}

fn clipped(clip: Rect, command: DrawCommand) -> ClippedDrawCommand {
    ClippedDrawCommand { clip, command, bounds: clip }
}

#[test]
fn no_commands_give_no_groups() {
    let out = group(&vec![]);
    assert!(out.groups.is_empty());
    assert!(out.diagnostics.is_empty());
}

#[test]
fn one_group_for_each_run_of_one_clip() {
    let commands = vec![
        clipped(clip_a(), circle(1)),
        clipped(clip_a(), circle(2)),
        clipped(clip_b(), circle(3)),
        clipped(clip_a(), circle(4)),
        clipped(clip_a(), circle(5)),
        clipped(clip_a(), circle(6)),
    ];
    let out = group(&commands);
    assert_eq!(
        out.groups,
        vec![
            ClipGroup {
                id: 0,
                region: DocRect { x: 0, y: 0, width: 100, height: 100 },
                children: vec![circle_node(1, 5, 5), circle_node(2, 5, 5)],
            },
            ClipGroup {
                id: 1,
                region: DocRect { x: 10, y: 10, width: 40, height: 40 },
                children: vec![circle_node(3, 5, 5)],
            },
            ClipGroup {
                id: 2,
                region: DocRect { x: 0, y: 0, width: 100, height: 100 },
                children: vec![circle_node(4, 5, 5), circle_node(5, 5, 5), circle_node(6, 5, 5)],
            },
        ]
    );
}

#[test]
fn children_of_all_groups_are_the_commands_in_order() {
    let clips = [clip_a(), clip_b(), clip_b(), clip_a(), clip_b(), clip_b(), clip_b(), clip_a()];
    let commands: Vec<ClippedDrawCommand> =
        clips.iter().enumerate().map(|(i, clip)| clipped(*clip, circle(i as i32))).collect();
    let out = group(&commands);
    assert_eq!(out.groups.len(), 5);
    let radii: Vec<i32> = out
        .groups
        .iter()
        .flat_map(|g| g.children.iter())
        .map(|node| match node {
            VectorNode::Circle(c) => c.radius,
            other => panic!("not a circle: {:?}", other),
        })
        .collect();
    assert_eq!(radii, vec![0, 1, 2, 3, 4, 5, 6, 7]);
    let ids: Vec<usize> = out.groups.iter().map(|g| g.id).collect();
    assert_eq!(ids, vec![0, 1, 2, 3, 4]);
}

#[test]
fn rect_then_circle_under_one_clip_share_one_group() {
    let red_rect = DrawCommand::Rect {
        bounds: Rect { min: at(1, 2), max: at(11, 22) },
        radii: CornerRadii { nw: 0, ne: 0, sw: 0, se: 0 },
        fill: Color::rgb(255, 0, 0),
        stroke: Stroke::none(),
    };
    let commands = vec![clipped(clip_a(), red_rect), clipped(clip_a(), circle(3))];
    let out = group(&commands);
    assert_eq!(
        out.groups,
        vec![ClipGroup {
            id: 0,
            region: DocRect { x: 0, y: 0, width: 100, height: 100 },
            children: vec![
                VectorNode::Rect(RectNode {
                    region: DocRect { x: 1, y: 2, width: 10, height: 20 },
                    corner_radius: 0,
                    fill: Color::rgb(255, 0, 0),
                    stroke: None,
                }),
                circle_node(3, 5, 5),
            ],
        }]
    );
}

#[test]
fn grouping_moves_clips_and_nodes_to_the_origin() {
    let commands = vec![clipped(clip_b(), circle(3))];
    let borrowed = borrow_all(&commands);
    let out = group_at(&borrowed, at(10, -10));
    assert_eq!(
        out.groups,
        vec![ClipGroup {
            id: 0,
            region: DocRect { x: 0, y: 20, width: 40, height: 40 },
            children: vec![circle_node(3, -5, 15)],
        }]
    );
}

#[test]
fn grouping_gathers_diagnostics_in_order() {
    let commands = vec![
        clipped(clip_a(), DrawCommand::Unknown("one".to_string())),
        clipped(clip_b(), circle(1)),
        clipped(clip_b(), DrawCommand::Unknown("two".to_string())),
    ];
    let out = group(&commands);
    assert_eq!(
        out.diagnostics,
        vec![
            Diagnostic::UnknownCommand("one".to_string()),
            Diagnostic::UnknownCommand("two".to_string()),
        ]
    );
    assert_eq!(out.groups.len(), 2);
}

#[test]
fn grouping_twice_gives_the_same() {
    let commands = vec![
        clipped(clip_a(), circle(1)),
        clipped(clip_b(), circle(2)),
        clipped(clip_b(), DrawCommand::Empty),
    ];
    assert_eq!(group(&commands), group(&commands));
}
