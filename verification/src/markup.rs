//! The elements of the `svg` crate, as far as this library builds them.
//!
//! An element is opaque here. What it holds is spoken of through
//! [`element_markup`] and [`document_markup`]: a tag, the attributes by name,
//! and the children in order. Every contract in this file is taken on trust
//! from the crate's source.

use crate::decimal::decimal_text;
use crate::geometry::SpecPoint;
use crate::node::SegmentView;
use svg::node::element::path::{Command, Data};
use svg::node::element::{Element, SVG};
use vstd::prelude::*;

verus! {

/// The crate's element of any tag, `svg::node::element::Element`.
#[verifier::external_type_specification]
#[verifier::external_body]
pub struct ExElement(Element);

/// The crate's root element, `svg::node::element::SVG`, which it also calls
/// `svg::Document`.
#[verifier::external_type_specification]
#[verifier::external_body]
pub struct ExDocument(SVG);

/// The crate's path data, `svg::node::element::path::Data`.
#[verifier::external_type_specification]
#[verifier::external_body]
pub struct ExData(Data);

/// One step of the crate's path data, `svg::node::element::path::Command`.
/// Nothing here handles one; path data hands them out, so the type has to be
/// known.
#[verifier::external_type_specification]
#[verifier::external_body]
pub struct ExCommand(Command);

/// What an element holds.
pub struct Markup {
    pub tag: Seq<char>,
    /// The value of each attribute, as it was assigned and before any
    /// escaping.
    pub attributes: Map<Seq<char>, Seq<char>>,
    pub children: Seq<MarkupChild>,
}

/// A child of an element: another element, or text.
pub enum MarkupChild {
    Element(Markup),
    Text(Seq<char>),
}

/// An element of the given tag that holds nothing yet.
pub open spec fn bare(tag: Seq<char>) -> Markup {
    Markup { tag, attributes: Map::empty(), children: Seq::empty() }
}

/// `markup` with one attribute assigned; an earlier value of that name is
/// replaced.
pub open spec fn with_attribute(markup: Markup, name: Seq<char>, value: Seq<char>) -> Markup {
    Markup { attributes: markup.attributes.insert(name, value), ..markup }
}

/// `markup` with one more child behind those it has.
pub open spec fn with_child(markup: Markup, child: MarkupChild) -> Markup {
    Markup { children: markup.children.push(child), ..markup }
}

/// What the element holds.
pub uninterp spec fn element_markup(element: Element) -> Markup;

/// What the root element of the document holds.
pub uninterp spec fn document_markup(document: SVG) -> Markup;

/// The whole number that a single-precision float holds for `v`: what the
/// conversion of a whole number into such a float gives, which is a whole
/// number again.
pub uninterp spec fn single_of(v: int) -> int;

/// The coordinate that path data holds for `v`, where `single` is what a
/// single-precision float holds for it. The crate keeps coordinates as such
/// floats, which hold every whole number of up to 24 bits as it is.
pub open spec fn held(v: int, single: int) -> int {
    if -0x100_0000 <= v <= 0x100_0000 {
        v
    } else {
        single
    }
}

/// The coordinate that path data holds for `v`.
pub open spec fn stored(v: int) -> int {
    held(v, single_of(v))
}

/// The steps that the path data holds, in order.
pub uninterp spec fn data_steps(data: Data) -> Seq<SegmentView>;

/// The text of path data of the given steps: what the crate's conversion of
/// `Data` into an attribute value gives for them.
pub uninterp spec fn data_text(steps: Seq<SegmentView>) -> Seq<char>;

/// Whether both coordinates of the step, if it has any, are whole numbers of
/// up to 24 bits.
pub open spec fn plain_step(step: SegmentView) -> bool {
    match step {
        SegmentView::MoveTo(p) => -0x100_0000 <= p.x <= 0x100_0000 && -0x100_0000 <= p.y
            <= 0x100_0000,
        SegmentView::LineTo(p) => -0x100_0000 <= p.x <= 0x100_0000 && -0x100_0000 <= p.y
            <= 0x100_0000,
        SegmentView::Close => true,
    }
}

/// One step as path data is written: the letter of the step, and its two
/// coordinates with a comma between them.
pub open spec fn step_text(step: SegmentView) -> Seq<char> {
    match step {
        SegmentView::MoveTo(p) => "M"@ + decimal_text(p.x) + ","@ + decimal_text(p.y),
        SegmentView::LineTo(p) => "L"@ + decimal_text(p.x) + ","@ + decimal_text(p.y),
        SegmentView::Close => "z"@,
    }
}

/// The first `n` steps as path data is written: step after step, with a
/// space between two.
pub open spec fn steps_text(steps: Seq<SegmentView>, n: nat) -> Seq<char>
    decreases n,
{
    if n == 0 {
        Seq::empty()
    } else if n == 1 {
        step_text(steps[0])
    } else {
        steps_text(steps, (n - 1) as nat) + " "@ + step_text(steps[n - 1])
    }
}

/// The text of path data of the given steps, where `text` is what the crate
/// gives for them. Where every coordinate is a whole number of up to 24
/// bits, the crate writes each in decimal.
pub open spec fn written(steps: Seq<SegmentView>, text: Seq<char>) -> Seq<char> {
    if forall|i: int| 0 <= i < steps.len() ==> plain_step(#[trigger] steps[i]) {
        steps_text(steps, steps.len())
    } else {
        text
    }
}

/// The text of path data of the given steps.
pub open spec fn path_text(steps: Seq<SegmentView>) -> Seq<char> {
    written(steps, data_text(steps))
}

/// Calls `Group::new`: an element `g` without attributes or children.
#[verifier::external_body]
pub(crate) fn group_new() -> (out: Element)
    ensures
        element_markup(out) == bare("g"@),
{
    svg::node::element::Group::new().into()
}

/// Calls `Path::new`: an element `path` without attributes or children.
#[verifier::external_body]
pub(crate) fn path_new() -> (out: Element)
    ensures
        element_markup(out) == bare("path"@),
{
    svg::node::element::Path::new().into()
}

/// Calls `Circle::new`: an element `circle` without attributes or children.
#[verifier::external_body]
pub(crate) fn circle_new() -> (out: Element)
    ensures
        element_markup(out) == bare("circle"@),
{
    svg::node::element::Circle::new().into()
}

/// Calls `Line::new`: an element `line` without attributes or children.
#[verifier::external_body]
pub(crate) fn line_new() -> (out: Element)
    ensures
        element_markup(out) == bare("line"@),
{
    svg::node::element::Line::new().into()
}

/// Calls `Rectangle::new`: an element `rect` without attributes or children.
#[verifier::external_body]
pub(crate) fn rectangle_new() -> (out: Element)
    ensures
        element_markup(out) == bare("rect"@),
{
    svg::node::element::Rectangle::new().into()
}

/// Calls `ClipPath::new`: an element `clipPath` without attributes or
/// children.
#[verifier::external_body]
pub(crate) fn clip_path_new() -> (out: Element)
    ensures
        element_markup(out) == bare("clipPath"@),
{
    svg::node::element::ClipPath::new().into()
}

/// Calls `Text::new`: an element `text` without attributes, whose one child
/// is the given content as a text node.
#[verifier::external_body]
pub(crate) fn text_new(content: &str) -> (out: Element)
    ensures
        element_markup(out) == with_child(bare("text"@), MarkupChild::Text(content@)),
{
    svg::node::element::Text::new(content).into()
}

/// Calls `Node::assign` on the element: the attribute gets the value, and
/// nothing else changes.
#[verifier::external_body]
pub(crate) fn element_set(element: Element, name: &str, value: &str) -> (out: Element)
    ensures
        element_markup(out) == with_attribute(element_markup(element), name@, value@),
{
    let mut element = element;
    svg::Node::assign(&mut element, name, value);
    element
}

/// Calls `Node::assign` on the element with path data as the value: the
/// attribute gets the text of the data, which is its steps in their order
/// with a space between two.
#[verifier::external_body]
pub(crate) fn element_set_data(element: Element, name: &str, data: Data) -> (out: Element)
    ensures
        element_markup(out) == with_attribute(
            element_markup(element),
            name@,
            written(data_steps(data), data_text(data_steps(data))),
        ),
{
    let mut element = element;
    svg::Node::assign(&mut element, name, data);
    element
}

/// Calls `Node::append` on the element: the child goes behind the children
/// that are there.
#[verifier::external_body]
pub(crate) fn element_add(element: Element, child: Element) -> (out: Element)
    ensures
        element_markup(out) == with_child(
            element_markup(element),
            MarkupChild::Element(element_markup(child)),
        ),
{
    let mut element = element;
    svg::Node::append(&mut element, child);
    element
}

/// Calls `Data::new`: path data without steps.
#[verifier::external_body]
pub(crate) fn data_new() -> (out: Data)
    ensures
        data_steps(out) == Seq::<SegmentView>::empty(),
{
    Data::new()
}

/// Calls `Data::move_to`: one more step, an absolute move to the point as
/// the data holds it.
#[verifier::external_body]
pub(crate) fn data_move_to(data: Data, x: i64, y: i64) -> (out: Data)
    ensures
        data_steps(out) == data_steps(data).push(
            SegmentView::MoveTo(
                SpecPoint {
                    x: held(x as int, single_of(x as int)),
                    y: held(y as int, single_of(y as int)),
                },
            ),
        ),
{
    data.move_to((x, y))
}

/// Calls `Data::line_to`: one more step, an absolute line to the point as
/// the data holds it.
#[verifier::external_body]
pub(crate) fn data_line_to(data: Data, x: i64, y: i64) -> (out: Data)
    ensures
        data_steps(out) == data_steps(data).push(
            SegmentView::LineTo(
                SpecPoint {
                    x: held(x as int, single_of(x as int)),
                    y: held(y as int, single_of(y as int)),
                },
            ),
        ),
{
    data.line_to((x, y))
}

/// Calls `Data::close`: one more step, which closes the path.
#[verifier::external_body]
pub(crate) fn data_close(data: Data) -> (out: Data)
    ensures
        data_steps(out) == data_steps(data).push(SegmentView::Close),
{
    data.close()
}

/// Calls `Document::new`: an element `svg` without children, whose one
/// attribute names the namespace of the format.
#[verifier::external_body]
pub(crate) fn document_new() -> (out: SVG)
    ensures
        document_markup(out) == with_attribute(
            bare("svg"@),
            "xmlns"@,
            "http://www.w3.org/2000/svg"@,
        ),
{
    svg::Document::new()
}

/// Calls `SVG::set`: the attribute gets the value, and nothing else changes.
#[verifier::external_body]
pub(crate) fn document_set(document: SVG, name: &str, value: &str) -> (out: SVG)
    ensures
        document_markup(out) == with_attribute(document_markup(document), name@, value@),
{
    document.set(name, value)
}

/// Calls `SVG::add`: the child goes behind the children that are there.
#[verifier::external_body]
pub(crate) fn document_add(document: SVG, child: Element) -> (out: SVG)
    ensures
        document_markup(out) == with_child(
            document_markup(document),
            MarkupChild::Element(element_markup(child)),
        ),
{
    document.add(child)
}

} // verus!
