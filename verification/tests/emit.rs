use egui_export_svg::capture::mark;
use egui_export_svg::command::{
    ClippedDrawCommand, CornerRadii, DrawCommand, FontFamily, Frame, Glyph, HorizontalAlign,
    Layer, Row, Section, TextCommand, Vertex,
};
use egui_export_svg::emit::{
    anchor_name, capture_scope, clip_group_to_svg, clip_name_of, clipped_shapes_to_group,
    color32_rgba, document_to_svg, family_name, fill, groups_to_svg, node_to_svg, scope_picture,
    shape_to_path, snapshot, stroke, view_box_value,
};
use egui_export_svg::geometry::{Color, DocPoint, DocRect, Point, Rect, Stroke};
use egui_export_svg::node::{
    ClipGroup, Diagnostic, GenericFamily, PathNode, PathSegment, TextAnchor, TextNode,
    VectorDocument, VectorNode,
};
use svg::node::element::path::Data;
use svg::node::element::{Element, Group};
use svg::node::Value;

fn at(x: i32, y: i32) -> Point {
    Point { x, y }
}

fn red() -> Color {
    Color::rgb(255, 0, 0)
}

fn pen() -> Stroke {
    Stroke { width: 2, color: Color::rgb(0, 0, 0) }
}

fn clip_a() -> Rect {
    Rect { min: at(0, 0), max: at(100, 100) }
}

fn circle_at(x: i32, y: i32, radius: i32) -> ClippedDrawCommand {
    ClippedDrawCommand {
        clip: clip_a(),
        command: DrawCommand::Circle { center: at(x, y), radius, fill: red(), stroke: Stroke::none() },
        bounds: Rect { min: at(x - radius, y - radius), max: at(x + radius, y + radius) },
    }
}

fn screen() -> Rect {
    Rect { min: at(0, 0), max: at(800, 600) }
}

fn bare_group() -> Element {
    Group::new().into()
}

#[test]
fn colour_is_written_as_rgb() {
    assert_eq!(color32_rgba(red()), "rgb(255, 0, 0)");
    assert_eq!(color32_rgba(Color { r: 1, g: 20, b: 113, a: 7 }), "rgb(1, 20, 113)");
}

#[test]
fn opaque_fill_has_no_opacity() {
    assert_eq!(fill(bare_group(), red()).to_string(), r#"<g fill="rgb(255, 0, 0)"/>"#);
}

#[test]
fn translucent_fill_has_its_alpha_as_opacity() {
    let see_through = Color { r: 0, g: 64, b: 200, a: 128 };
    assert_eq!(
        fill(bare_group(), see_through).to_string(),
        r#"<g fill="rgb(0, 64, 200)" fill-opacity="0.502"/>"#
    );
    let faint = Color { r: 255, g: 255, b: 255, a: 1 };
    assert_eq!(
        fill(bare_group(), faint).to_string(),
        r#"<g fill="rgb(255, 255, 255)" fill-opacity="0.004"/>"#
    );
    let unseen = Color { r: 9, g: 9, b: 9, a: 0 };
    assert_eq!(
        fill(bare_group(), unseen).to_string(),
        r#"<g fill="rgb(9, 9, 9)" fill-opacity="0.000"/>"#
    );
}

#[test]
fn stroke_sets_width_and_colour() {
    assert_eq!(
        stroke(bare_group(), pen()).to_string(),
        r#"<g stroke="rgb(0, 0, 0)" stroke-width="2"/>"#
    );
}

#[test]
fn stroke_that_is_not_drawn_sets_nothing() {
    assert_eq!(stroke(bare_group(), Stroke::none()).to_string(), "<g/>");
    assert_eq!(stroke(bare_group(), Stroke { width: 0, color: red() }).to_string(), "<g/>");
    assert_eq!(
        stroke(bare_group(), Stroke { width: 3, color: Color::transparent() }).to_string(),
        "<g/>"
    );
    assert_eq!(
        stroke(bare_group(), Stroke { width: -1, color: Color { r: 0, g: 0, b: 0, a: 1 } })
            .to_string(),
        r#"<g stroke="rgb(0, 0, 0)" stroke-width="-1"/>"#
    );
}

#[test]
fn node_with_an_outline_that_is_not_drawn_gets_none() {
    let node = VectorNode::Path(PathNode {
        segments: vec![],
        fill: red(),
        stroke: Some(Stroke { width: 4, color: Color::transparent() }),
    });
    assert_eq!(node_to_svg(&node).to_string(), r#"<path d="" fill="rgb(255, 0, 0)"/>"#);
}

#[test]
fn empty_command_is_an_empty_path() {
    let out = shape_to_path(&DrawCommand::Empty);
    assert_eq!(out.element.to_string(), "<path/>");
    assert!(out.diagnostics.is_empty());
}

#[test]
fn unknown_command_is_an_empty_path_with_a_diagnostic() {
    let out = shape_to_path(&DrawCommand::Unknown("Callback".to_string()));
    assert_eq!(out.element.to_string(), "<path/>");
    assert_eq!(out.diagnostics, vec![Diagnostic::UnknownCommand("Callback".to_string())]);
}

#[test]
fn circle_element() {
    let out = shape_to_path(&DrawCommand::Circle { center: at(10, 20), radius: 5, fill: red(), stroke: pen() });
    assert_eq!(
        out.element.to_string(),
        r#"<circle cx="10" cy="20" fill="rgb(255, 0, 0)" r="5" stroke="rgb(0, 0, 0)" stroke-width="2"/>"#
    );
}

#[test]
fn line_element_has_no_fill() {
    let out = shape_to_path(&DrawCommand::LineSegment { from: at(1, 2), to: at(3, 4), stroke: pen() });
    assert_eq!(
        out.element.to_string(),
        r#"<line stroke="rgb(0, 0, 0)" stroke-width="2" x1="1" x2="3" y1="2" y2="4"/>"#
    );
}

#[test]
fn rect_element() {
    let out = shape_to_path(&DrawCommand::Rect {
        bounds: Rect { min: at(10, 20), max: at(40, 80) },
        radii: CornerRadii { nw: 1, ne: 2, sw: 3, se: 4 },
        fill: red(),
        stroke: Stroke::none(),
    });
    assert_eq!(
        out.element.to_string(),
        r#"<rect fill="rgb(255, 0, 0)" height="60" rx="4" ry="4" width="30" x="10" y="20"/>"#
    );
    assert_eq!(out.diagnostics, vec![Diagnostic::AsymmetricRounding]);
}

#[test]
fn path_element_carries_its_data() {
    let out = shape_to_path(&DrawCommand::Path {
        points: vec![at(1, 2), at(3, -4), at(5, 6)],
        closed: true,
        fill: red(),
        stroke: pen(),
    });
    assert_eq!(
        out.element.to_string(),
        r#"<path d="M1,2 L3,-4 L5,6 z" fill="rgb(255, 0, 0)" stroke="rgb(0, 0, 0)" stroke-width="2"/>"#
    );
}

#[test]
fn path_data_is_what_the_svg_crate_writes() {
    let node = VectorNode::Path(PathNode {
        segments: vec![
            PathSegment::MoveTo(DocPoint { x: 10, y: -20 }),
            PathSegment::LineTo(DocPoint { x: 300, y: 4000 }),
            PathSegment::Close,
            PathSegment::LineTo(DocPoint { x: 0, y: 7 }),
        ],
        fill: red(),
        stroke: None,
    });
    let element = node_to_svg(&node);
    let data = Data::new().move_to((10, -20)).line_to((300, 4000)).close().line_to((0, 7));
    let expected: Value = data.into();
    assert_eq!(element.get_attributes().get("d"), Some(&expected));
    assert_eq!(expected.to_string(), "M10,-20 L300,4000 z L0,7");
}

#[test]
fn path_without_steps_has_empty_data() {
    let out = shape_to_path(&DrawCommand::Path {
        points: vec![],
        closed: false,
        fill: red(),
        stroke: Stroke::none(),
    });
    assert_eq!(out.element.to_string(), r#"<path d="" fill="rgb(255, 0, 0)"/>"#);
}

#[test]
fn mesh_element_is_a_group_of_filled_triangles() {
    let vertices = vec![
        Vertex { pos: at(0, 0), color: red() },
        Vertex { pos: at(10, 0), color: red() },
        Vertex { pos: at(0, 10), color: red() },
    ];
    let out = shape_to_path(&DrawCommand::Mesh { vertices, indices: vec![0, 1, 2], textured: false });
    assert_eq!(
        out.element.to_string(),
        "<g>\n<path d=\"M0,0 L10,0 L0,10 z\" fill=\"rgb(255, 0, 0)\"/>\n</g>"
    );
}

#[test]
fn group_element_holds_its_children_in_order() {
    let out = shape_to_path(&DrawCommand::Group(vec![
        DrawCommand::Empty,
        DrawCommand::Circle { center: at(1, 2), radius: 3, fill: red(), stroke: Stroke::none() },
        DrawCommand::Group(vec![]),
    ]));
    assert_eq!(
        out.element.to_string(),
        "<g>\n<path/>\n<circle cx=\"1\" cy=\"2\" fill=\"rgb(255, 0, 0)\" r=\"3\"/>\n<g/>\n</g>"
    );
}

#[test]
fn text_element() {
    let glyphs: Vec<Glyph> = "a<b "
        .chars()
        .enumerate()
        .map(|(i, chr)| Glyph { chr, pos: at(i as i32 * 7, 0), size: at(7, 16), section: 0 })
        .collect();
    let text = TextCommand {
        anchor: at(100, 200),
        rows: vec![Row { glyphs, first_section: 0, ends_with_newline: false }],
        sections: vec![Section {
            start: 0,
            end: 4,
            family: FontFamily::Monospace,
            font_size: 14,
            color: red(),
            leading_space: 0,
        }],
        justify: false,
        halign: HorizontalAlign::Max,
        line_width: 500,
        override_color: None,
        fallback_color: red(),
    };
    let out = shape_to_path(&DrawCommand::Text(text));
    assert_eq!(
        out.element.to_string(),
        "<g>\n<text fill=\"rgb(255, 0, 0)\" font-family=\"monospace\" font-size=\"14\" \
         text-anchor=\"start\" textLength=\"21\" x=\"100\" y=\"200\">a&lt;b </text>\n</g>"
    );
}

#[test]
fn text_node_with_a_wide_length() {
    let node = VectorNode::Text(TextNode {
        position: DocPoint { x: -1, y: 2 },
        content: "wide".to_string(),
        font_family: GenericFamily::SansSerif,
        font_size: 9,
        anchor: TextAnchor::Middle,
        text_length: i128::MAX,
        fill: red(),
        stroke: Some(pen()),
    });
    assert_eq!(
        node_to_svg(&node).to_string(),
        "<text fill=\"rgb(255, 0, 0)\" font-family=\"sans-serif\" font-size=\"9\" \
         stroke=\"rgb(0, 0, 0)\" stroke-width=\"2\" text-anchor=\"middle\" \
         textLength=\"170141183460469231731687303715884105727\" x=\"-1\" y=\"2\">wide</text>"
    );
}

#[test]
fn keywords() {
    assert_eq!(family_name(GenericFamily::SansSerif), "sans-serif");
    assert_eq!(family_name(GenericFamily::Monospace), "monospace");
    assert_eq!(anchor_name(TextAnchor::Start), "start");
    assert_eq!(anchor_name(TextAnchor::Middle), "middle");
    assert_eq!(anchor_name(TextAnchor::End), "end");
}

#[test]
fn clip_group_element_names_its_region() {
    let group = ClipGroup {
        id: 12,
        region: DocRect { x: -5, y: 6, width: 70, height: 80 },
        children: vec![VectorNode::Empty, VectorNode::Empty],
    };
    assert_eq!(clip_name_of(12), "clip_rect_12");
    assert_eq!(
        clip_group_to_svg(&group).to_string(),
        "<g clip-path=\"url(#clip_rect_12)\">\n<clipPath id=\"clip_rect_12\">\n\
         <rect height=\"80\" width=\"70\" x=\"-5\" y=\"6\"/>\n</clipPath>\n<path/>\n<path/>\n</g>"
    );
}

#[test]
fn groups_element_holds_the_clip_groups() {
    assert_eq!(groups_to_svg(&vec![]).to_string(), "<g/>");
    let out = clipped_shapes_to_group(&vec![
        circle_at(1, 2, 3),
        ClippedDrawCommand {
            clip: Rect { min: at(1, 1), max: at(2, 3) },
            command: DrawCommand::Empty,
            bounds: Rect::nothing(),
        },
    ]);
    assert_eq!(
        out.element.to_string(),
        "<g>\n<g clip-path=\"url(#clip_rect_0)\">\n<clipPath id=\"clip_rect_0\">\n\
         <rect height=\"100\" width=\"100\" x=\"0\" y=\"0\"/>\n</clipPath>\n\
         <circle cx=\"1\" cy=\"2\" fill=\"rgb(255, 0, 0)\" r=\"3\"/>\n</g>\n\
         <g clip-path=\"url(#clip_rect_1)\">\n<clipPath id=\"clip_rect_1\">\n\
         <rect height=\"2\" width=\"1\" x=\"1\" y=\"1\"/>\n</clipPath>\n<path/>\n</g>\n</g>"
    );
}

#[test]
fn view_box_is_corner_then_size() {
    assert_eq!(view_box_value(&DocRect { x: -5, y: 7, width: 800, height: 600 }), "-5 7 800 600");
}

#[test]
fn empty_document() {
    let document = VectorDocument { view_box: DocRect { x: 0, y: 0, width: 0, height: 0 }, groups: vec![] };
    assert_eq!(
        document_to_svg(&document).to_string(),
        "<svg viewBox=\"0 0 0 0\" xmlns=\"http://www.w3.org/2000/svg\">\n<g/>\n</svg>"
    );
}

#[test]
fn snapshot_is_the_whole_frame_in_the_screen() {
    let frame = Frame {
        layers: vec![Layer { order: 0, id: 1, commands: vec![circle_at(30, 40, 5)] }],
        screen: Rect { min: at(-5, 7), max: at(795, 607) },
    };
    let out = snapshot(&frame);
    assert_eq!(
        out.document.to_string(),
        "<svg viewBox=\"-5 7 800 600\" xmlns=\"http://www.w3.org/2000/svg\">\n<g>\n\
         <g clip-path=\"url(#clip_rect_0)\">\n<clipPath id=\"clip_rect_0\">\n\
         <rect height=\"100\" width=\"100\" x=\"0\" y=\"0\"/>\n</clipPath>\n\
         <circle cx=\"30\" cy=\"40\" fill=\"rgb(255, 0, 0)\" r=\"5\"/>\n</g>\n</g>\n</svg>"
    );
    assert!(out.diagnostics.is_empty());
}

#[test]
fn scope_picture_is_nothing_without_capture() {
    let frame = Frame {
        layers: vec![Layer { order: 0, id: 1, commands: vec![circle_at(30, 40, 5)] }],
        screen: screen(),
    };
    assert!(scope_picture(&vec![], &frame, false).is_none());
    assert!(scope_picture(&vec![], &frame, true).is_some());
}

#[test]
fn capture_scope_returns_nothing_when_the_callback_says_no() {
    let mut target =
        Frame { layers: vec![Layer { order: 0, id: 1, commands: vec![] }], screen: screen() };
    let picture = capture_scope(&mut target, |frame: &mut Frame| {
        frame.layers[0].commands.push(circle_at(30, 40, 5));
        false
    });
    assert!(picture.is_none());
    assert_eq!(target.layers[0].commands.len(), 1);
}

#[test]
fn capture_scope_returns_what_the_callback_drew() {
    let mut target = Frame {
        layers: vec![Layer { order: 0, id: 1, commands: vec![circle_at(500, 500, 50)] }],
        screen: screen(),
    };
    let marks_before = mark(&target);
    let picture = capture_scope(&mut target, |frame: &mut Frame| {
        frame.layers[0].commands.push(circle_at(30, 40, 5));
        frame.layers.push(Layer { order: 1, id: 2, commands: vec![circle_at(60, 45, 10)] });
        true
    });
    assert_eq!(marks_before.len(), 1);
    assert_eq!(target.layers.len(), 2);
    let picture = picture.unwrap();
    assert_eq!(
        picture.document.to_string(),
        "<svg viewBox=\"0 0 45 20\" xmlns=\"http://www.w3.org/2000/svg\">\n<g>\n\
         <g clip-path=\"url(#clip_rect_0)\">\n<clipPath id=\"clip_rect_0\">\n\
         <rect height=\"100\" width=\"100\" x=\"-25\" y=\"-35\"/>\n</clipPath>\n\
         <circle cx=\"5\" cy=\"5\" fill=\"rgb(255, 0, 0)\" r=\"5\"/>\n\
         <circle cx=\"35\" cy=\"10\" fill=\"rgb(255, 0, 0)\" r=\"10\"/>\n</g>\n</g>\n</svg>"
    );
    assert!(picture.diagnostics.is_empty());
}

#[test]
fn capture_scope_of_a_callback_that_draws_nothing_is_an_empty_document() {
    let mut target = Frame { layers: vec![], screen: screen() };
    let picture = capture_scope(&mut target, |_: &mut Frame| true);
    assert_eq!(
        picture.unwrap().document.to_string(),
        "<svg viewBox=\"0 0 0 0\" xmlns=\"http://www.w3.org/2000/svg\">\n<g/>\n</svg>"
    );
}

#[test]
fn path_data_keeps_large_coordinates_as_the_svg_crate_does() {
    let node = VectorNode::Path(PathNode {
        segments: vec![
            PathSegment::MoveTo(DocPoint { x: 16777216, y: -16777216 }),
            PathSegment::LineTo(DocPoint { x: 16777217, y: 4294967295 }),
        ],
        fill: red(),
        stroke: None,
    });
    let element = node_to_svg(&node);
    let data = Data::new().move_to((16777216_i64, -16777216_i64)).line_to((16777217_i64, 4294967295_i64));
    let expected: Value = data.into();
    assert_eq!(element.get_attributes().get("d"), Some(&expected));
    assert_eq!(expected.to_string(), "M16777216,-16777216 L16777216,4294967300");
}

#[test]
fn path_data_writes_whole_numbers_of_up_to_24_bits_in_decimal() {
    let samples: [i64; 17] = [
        -16777216, -16777215, -9999999, -1, 0, 1, 7, 10, 99, 100, 1000000, 8388607, 8388608,
        8388609, 12345678, 16777215, 16777216,
    ];
    for x in samples {
        for y in samples {
            let node = VectorNode::Path(PathNode {
                segments: vec![
                    PathSegment::MoveTo(DocPoint { x, y }),
                    PathSegment::LineTo(DocPoint { x: y, y: x }),
                    PathSegment::Close,
                ],
                fill: red(),
                stroke: None,
            });
            let element = node_to_svg(&node);
            let expected = format!("M{},{} L{},{} z", x, y, y, x);
            assert_eq!(element.get_attributes().get("d").unwrap().to_string(), expected);
        }
    }
}

#[test]
fn clip_regions_of_different_numbers_have_different_names() {
    let names: Vec<String> =
        [0, 1, 9, 10, 11, 100, 101, 110].into_iter().map(clip_name_of).collect();
    for (i, a) in names.iter().enumerate() {
        for (j, b) in names.iter().enumerate() {
            assert_eq!(a == b, i == j);
        }
    }
}
