use egui_export_svg::capture::{
    bounds_of, capture, gather, mark, marked_length_of, scope_document, snapshot_document,
    sorted_layer_ids, LayerMark,
};
use egui_export_svg::clip::borrow_all;
use egui_export_svg::command::{ClippedDrawCommand, CornerRadii, DrawCommand, Frame, Layer};
use egui_export_svg::geometry::{rect_to_viewbox, Color, DocPoint, DocRect, Point, Rect, Stroke};
use egui_export_svg::node::{CircleNode, ClipGroup, RectNode, VectorNode};

fn at(x: i32, y: i32) -> Point {
    Point { x, y }
}

fn clip_a() -> Rect {
    Rect { min: at(0, 0), max: at(100, 100) }
}

fn circle_at(x: i32, y: i32, radius: i32) -> ClippedDrawCommand {
    ClippedDrawCommand {
        clip: clip_a(),
        command: DrawCommand::Circle {
            center: at(x, y),
            radius,
            fill: Color::rgb(0, 0, 255),
            stroke: Stroke::none(),
        },
        bounds: Rect { min: at(x - radius, y - radius), max: at(x + radius, y + radius) },
    }
}

fn layer(order: u32, id: u64, commands: Vec<ClippedDrawCommand>) -> Layer {
    Layer { order, id, commands }
}

fn screen() -> Rect {
    Rect { min: at(0, 0), max: at(800, 600) }
}

fn radii_of(commands: &[&ClippedDrawCommand]) -> Vec<i32> {
    commands
        .iter()
        .map(|c| match &c.command {
            DrawCommand::Circle { radius, .. } => *radius,
            other => panic!("not a circle: {:?}", other),
        })
        .collect()
}

#[test]
fn layers_are_sorted_by_key_and_keep_their_order_within_a_key() {
    let frame = Frame {
        layers: vec![
            layer(3, 30, vec![]),
            layer(1, 10, vec![]),
            layer(3, 31, vec![]),
            layer(0, 1, vec![]),
            layer(1, 11, vec![]),
            layer(3, 29, vec![]),
        ],
        screen: screen(),
    };
    assert_eq!(sorted_layer_ids(&frame), vec![3, 1, 4, 0, 2, 5]);
    let ids: Vec<u64> = capture(&frame).iter().map(|l| l.id).collect();
    assert_eq!(ids, vec![1, 10, 11, 30, 31, 29]);
}

#[test]
fn frame_without_layers_has_no_order() {
    let frame = Frame { layers: vec![], screen: screen() };
    assert!(sorted_layer_ids(&frame).is_empty());
    assert!(capture(&frame).is_empty());
}

#[test]
fn snapshot_shows_the_screen_and_moves_nothing() {
    let frame = Frame {
        layers: vec![layer(0, 1, vec![circle_at(30, 40, 5)])],
        screen: Rect { min: at(-5, 7), max: at(795, 607) },
    };
    let out = snapshot_document(&frame);
    assert_eq!(out.document.view_box, DocRect { x: -5, y: 7, width: 800, height: 600 });
    assert_eq!(out.document.view_box, rect_to_viewbox(frame.screen));
    assert_eq!(
        out.document.groups,
        vec![ClipGroup {
            id: 0,
            region: DocRect { x: 0, y: 0, width: 100, height: 100 },
            children: vec![VectorNode::Circle(CircleNode {
                center: DocPoint { x: 30, y: 40 },
                radius: 5,
                fill: Color::rgb(0, 0, 255),
                stroke: None,
            })],
        }]
    );
}

#[test]
fn snapshot_of_nothing_is_an_empty_document() {
    let frame = Frame { layers: vec![], screen: screen() };
    let out = snapshot_document(&frame);
    assert_eq!(out.document.view_box, DocRect { x: 0, y: 0, width: 800, height: 600 });
    assert!(out.document.groups.is_empty());
    assert!(out.diagnostics.is_empty());
}

#[test]
fn two_layers_under_one_clip_give_one_group_in_paint_order() {
    let red_rect = ClippedDrawCommand {
        clip: clip_a(),
        command: DrawCommand::Rect {
            bounds: Rect { min: at(1, 2), max: at(11, 22) },
            radii: CornerRadii { nw: 0, ne: 0, sw: 0, se: 0 },
            fill: Color::rgb(255, 0, 0),
            stroke: Stroke::none(),
        },
        bounds: Rect { min: at(1, 2), max: at(11, 22) },
    };
    let frame = Frame {
        layers: vec![layer(1, 7, vec![circle_at(30, 40, 5)]), layer(0, 9, vec![red_rect])],
        screen: screen(),
    };
    let out = snapshot_document(&frame);
    assert_eq!(
        out.document.groups,
        vec![ClipGroup {
            id: 0,
            region: DocRect { x: 0, y: 0, width: 100, height: 100 },
            children: vec![
                VectorNode::Rect(RectNode {
                    region: DocRect { x: 1, y: 2, width: 10, height: 20 },
                    corner_radius: 0,
                    fill: Color::rgb(255, 0, 0),
                    stroke: None,
                }),
                VectorNode::Circle(CircleNode {
                    center: DocPoint { x: 30, y: 40 },
                    radius: 5,
                    fill: Color::rgb(0, 0, 255),
                    stroke: None,
                }),
            ],
        }]
    );
}

#[test]
fn marks_record_the_length_of_each_layer() {
    let frame = Frame {
        layers: vec![
            layer(2, 5, vec![circle_at(0, 0, 1), circle_at(0, 0, 2)]),
            layer(0, 6, vec![]),
        ],
        screen: screen(),
    };
    assert_eq!(
        mark(&frame),
        vec![LayerMark { order: 2, id: 5, length: 2 }, LayerMark { order: 0, id: 6, length: 0 }]
    );
}

#[test]
fn marked_length_goes_by_key_and_identity() {
    let marks = vec![
        LayerMark { order: 2, id: 5, length: 2 },
        LayerMark { order: 0, id: 5, length: 7 },
        LayerMark { order: 2, id: 5, length: 9 },
    ];
    assert_eq!(marked_length_of(&marks, 2, 5), 2);
    assert_eq!(marked_length_of(&marks, 0, 5), 7);
    assert_eq!(marked_length_of(&marks, 2, 6), 0);
    assert_eq!(marked_length_of(&vec![], 2, 5), 0);
}

#[test]
fn gather_takes_what_each_layer_gained_in_paint_order() {
    let marks = vec![
        LayerMark { order: 1, id: 1, length: 1 },
        LayerMark { order: 0, id: 2, length: 2 },
        LayerMark { order: 0, id: 3, length: 5 },
    ];
    let frame = Frame {
        layers: vec![
            layer(1, 1, vec![circle_at(0, 0, 10), circle_at(0, 0, 11), circle_at(0, 0, 12)]),
            layer(0, 2, vec![circle_at(0, 0, 20), circle_at(0, 0, 21), circle_at(0, 0, 22)]),
            layer(0, 3, vec![circle_at(0, 0, 30)]),
            layer(0, 4, vec![circle_at(0, 0, 40)]),
        ],
        screen: screen(),
    };
    assert_eq!(radii_of(&gather(&marks, &frame)), vec![22, 40, 11, 12]);
    assert_eq!(radii_of(&gather(&vec![], &frame)), vec![20, 21, 22, 30, 40, 10, 11, 12]);
}

#[test]
fn bounds_are_the_union_of_what_was_painted() {
    let commands = vec![circle_at(30, 40, 5), circle_at(10, 100, 2), circle_at(50, 50, 1)];
    assert_eq!(bounds_of(&borrow_all(&commands)), Rect { min: at(8, 35), max: at(51, 102) });
    assert_eq!(bounds_of(&vec![]), Rect::nothing());
    assert!(bounds_of(&vec![]).is_nothing());
}

#[test]
fn union_with_nothing_changes_nothing() {
    let r = Rect { min: at(-3, 4), max: at(10, 20) };
    assert_eq!(Rect::nothing().union(&r), r);
    assert_eq!(r.union(&Rect::nothing()), r);
    assert_eq!(
        r.union(&Rect { min: at(0, 0), max: at(50, 5) }),
        Rect { min: at(-3, 0), max: at(50, 20) }
    );
}

#[test]
fn no_capture_gives_nothing_though_commands_were_added() {
    let before = Frame { layers: vec![layer(0, 1, vec![])], screen: screen() };
    let marks = mark(&before);
    let after = Frame { layers: vec![layer(0, 1, vec![circle_at(30, 40, 5)])], screen: screen() };
    assert_eq!(scope_document(&marks, &after, false), None);
    assert!(scope_document(&marks, &after, true).is_some());
}

#[test]
fn scoped_document_begins_at_zero() {
    let before = Frame {
        layers: vec![layer(0, 1, vec![circle_at(500, 500, 50)])],
        screen: screen(),
    };
    let marks = mark(&before);
    let after = Frame {
        layers: vec![layer(
            0,
            1,
            vec![circle_at(500, 500, 50), circle_at(30, 40, 5), circle_at(60, 45, 10)],
        )],
        screen: screen(),
    };
    let out = scope_document(&marks, &after, true).unwrap();
    assert_eq!(out.document.view_box, DocRect { x: 0, y: 0, width: 45, height: 20 });
    assert_eq!(
        out.document.groups,
        vec![ClipGroup {
            id: 0,
            region: DocRect { x: -25, y: -35, width: 100, height: 100 },
            children: vec![
                VectorNode::Circle(CircleNode {
                    center: DocPoint { x: 5, y: 5 },
                    radius: 5,
                    fill: Color::rgb(0, 0, 255),
                    stroke: None,
                }),
                VectorNode::Circle(CircleNode {
                    center: DocPoint { x: 35, y: 10 },
                    radius: 10,
                    fill: Color::rgb(0, 0, 255),
                    stroke: None,
                }),
            ],
        }]
    );
}

#[test]
fn scope_that_adds_nothing_gives_an_empty_document() {
    let frame = Frame { layers: vec![layer(0, 1, vec![circle_at(30, 40, 5)])], screen: screen() };
    let marks = mark(&frame);
    let out = scope_document(&marks, &frame, true).unwrap();
    assert_eq!(out.document.view_box, DocRect { x: 0, y: 0, width: 0, height: 0 });
    assert!(out.document.groups.is_empty());
    assert!(out.diagnostics.is_empty());
}

#[test]
fn layer_that_came_during_the_scope_counts_from_its_start() {
    let before = Frame { layers: vec![layer(1, 1, vec![circle_at(0, 0, 1)])], screen: screen() };
    let marks = mark(&before);
    let after = Frame {
        layers: vec![layer(1, 1, vec![circle_at(0, 0, 1)]), layer(0, 2, vec![circle_at(7, 7, 2)])],
        screen: screen(),
    };
    let out = scope_document(&marks, &after, true).unwrap();
    assert_eq!(out.document.view_box, DocRect { x: 0, y: 0, width: 4, height: 4 });
    assert_eq!(out.document.groups.len(), 1);
    assert_eq!(out.document.groups[0].children.len(), 1);
}

#[test]
fn layer_that_lost_commands_gives_none() {
    let marks = vec![LayerMark { order: 0, id: 1, length: 5 }];
    let after = Frame { layers: vec![layer(0, 1, vec![circle_at(0, 0, 1)])], screen: screen() };
    let out = scope_document(&marks, &after, true).unwrap();
    assert!(out.document.groups.is_empty());
}

#[test]
fn commands_without_bounds_stay_where_they_are() {
    let unbounded = ClippedDrawCommand {
        clip: clip_a(),
        command: DrawCommand::Empty,
        bounds: Rect::nothing(),
    };
    let after = Frame { layers: vec![layer(0, 1, vec![unbounded])], screen: screen() };
    let out = scope_document(&vec![], &after, true).unwrap();
    assert_eq!(out.document.view_box, DocRect { x: 0, y: 0, width: 0, height: 0 });
    assert_eq!(
        out.document.groups,
        vec![ClipGroup {
            id: 0,
            region: DocRect { x: 0, y: 0, width: 100, height: 100 },
            children: vec![VectorNode::Empty],
        }]
    );
}

#[test]
fn each_layer_contributes_from_its_own_old_length() {
    let before = Frame {
        layers: vec![
            layer(0, 1, vec![circle_at(0, 0, 10)]),
            layer(0, 2, vec![circle_at(0, 0, 20), circle_at(0, 0, 21)]),
            layer(1, 1, vec![]),
        ],
        screen: screen(),
    };
    let marks = mark(&before);
    let after = Frame {
        layers: vec![
            layer(0, 1, vec![circle_at(0, 0, 10), circle_at(0, 0, 11)]),
            layer(0, 2, vec![circle_at(0, 0, 20), circle_at(0, 0, 21), circle_at(0, 0, 22)]),
            layer(1, 1, vec![circle_at(0, 0, 30)]),
        ],
        screen: screen(),
    };
    assert_eq!(radii_of(&gather(&marks, &after)), vec![11, 22, 30]);
}
