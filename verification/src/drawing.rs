//! The picture: a white square canvas, the polygon's outline and one filled
//! circle per vertex, built as an `svg` document.

use vstd::prelude::*;
use svg::node::element::{Element, SVG};
use svg::Node;
use crate::decimal::{decimal, decimal_string};

verus! {

#[verifier::external_type_specification]
#[verifier::external_body]
pub struct ExSvgDocument(svg::node::element::SVG);

#[verifier::external_type_specification]
#[verifier::external_body]
pub struct ExSvgElement(svg::node::element::Element);

/// Attribute names, each with the text of its value.
pub type AttributeMap = Map<Seq<char>, Seq<char>>;

/// A child of the document's root: its tag, its attributes and how many
/// children it has itself.
pub type ChildView = (Seq<char>, AttributeMap, nat);

/// The tag of an element.
pub uninterp spec fn element_tag(e: Element) -> Seq<char>;

/// The attributes of an element, each name with the text of its value.
pub uninterp spec fn element_attributes(e: Element) -> AttributeMap;

/// How many children an element has.
pub uninterp spec fn element_child_count(e: Element) -> nat;

/// The tag of a document's root.
pub uninterp spec fn document_tag(d: SVG) -> Seq<char>;

/// The attributes of a document's root `svg` element, each name with the
/// text of its value.
pub uninterp spec fn document_attributes(d: SVG) -> AttributeMap;

/// The children of a document's root, in order, each as its tag, its
/// attributes and the number of its own children.
pub uninterp spec fn document_children(d: SVG) -> Seq<ChildView>;

/// `Element::new`: an element with the given tag, no attribute and no
/// child.
#[verifier::external_body]
fn new_element(tag: &str) -> (elem: Element)
    ensures
        element_tag(elem) == tag@,
        element_attributes(elem) == AttributeMap::empty(),
        element_child_count(elem) == 0,
{
    Element::new(tag)
}

/// `Node::assign` on an `Element`: inserts the attribute `name` with the
/// text `value` into its map of attributes, replacing an earlier one of that
/// name; the tag and the children stay.
#[verifier::external_body]
fn assign_attribute(e: &mut Element, name: &str, value: &str)
    ensures
        element_tag(*final(e)) == element_tag(*old(e)),
        element_attributes(*final(e)) == element_attributes(*old(e)).insert(name@, value@),
        element_child_count(*final(e)) == element_child_count(*old(e)),
{
    e.assign(name, value)
}

/// `svg::Document::new`: a root `svg` element whose one attribute is the
/// SVG namespace, with no child.
#[verifier::external_body]
fn new_document() -> (d: SVG)
    ensures
        document_tag(d) == "svg"@,
        document_attributes(d) == map!["xmlns"@ => "http://www.w3.org/2000/svg"@],
        document_children(d) == Seq::<ChildView>::empty(),
{
    SVG::new()
}

/// `SVG::set`: inserts the attribute `name` with the text `value` into the
/// root's attributes, replacing an earlier one of that name; the tag and
/// the children stay.
#[verifier::external_body]
fn set_document_attribute(d: SVG, name: &str, value: &str) -> (r: SVG)
    ensures
        document_tag(r) == document_tag(d),
        document_attributes(r) == document_attributes(d).insert(name@, value@),
        document_children(r) == document_children(d),
{
    d.set(name, value)
}

/// `SVG::add`: appends `e` after the root's other children; the root's
/// tag and attributes stay.
#[verifier::external_body]
fn add_element(d: SVG, e: Element) -> (r: SVG)
    ensures
        document_tag(r) == document_tag(d),
        document_attributes(r) == document_attributes(d),
        document_children(r) == document_children(d).push(
            (element_tag(e), element_attributes(e), element_child_count(e)),
        ),
{
    d.add(e)
}

/// The side of the square canvas, in user units.
pub const CANVAS_SIZE: usize = 800;

/// The width of the polygon's outline.
pub const OUTLINE_WIDTH: usize = 2;

/// The `viewBox` of a square canvas of side `size`: `0 0 <size> <size>`.
pub open spec fn view_box_text(size: nat) -> Seq<char> {
    decimal(0) + " "@ + decimal(0) + " "@ + decimal(size) + " "@ + decimal(size)
}

/// The attributes of the document's root.
pub open spec fn canvas_attributes() -> AttributeMap {
    map![
        "xmlns"@ => "http://www.w3.org/2000/svg"@,
        "width"@ => decimal(CANVAS_SIZE as nat),
        "height"@ => decimal(CANVAS_SIZE as nat),
        "viewBox"@ => view_box_text(CANVAS_SIZE as nat),
    ]
}

/// The white rectangle that fills the canvas, with no child.
pub open spec fn background_view() -> ChildView {
    ("rect"@, map!["width"@ => "100%"@, "height"@ => "100%"@, "fill"@ => "white"@], 0)
}

/// The polygon's black, unfilled outline through `points`, with no child.
pub open spec fn outline_view(points: Seq<char>) -> ChildView {
    (
        "polygon"@,
        map![
            "points"@ => points,
            "stroke"@ => "black"@,
            "stroke-width"@ => decimal(OUTLINE_WIDTH as nat),
            "fill"@ => "none"@,
        ],
        0,
    )
}

/// A steel-blue disc of radius `r` centred at (`cx`, `cy`), with no child.
pub open spec fn circle_view(cx: Seq<char>, cy: Seq<char>, r: Seq<char>) -> ChildView {
    ("circle"@, map!["cx"@ => cx, "cy"@ => cy, "r"@ => r, "fill"@ => "steelblue"@], 0)
}

/// One point of an outline: `<x>,<y>`.
pub open spec fn point_text(p: (String, String)) -> Seq<char> {
    p.0@ + ","@ + p.1@
}

/// The points of an outline, separated by single spaces.
pub open spec fn points_text(points: Seq<(String, String)>) -> Seq<char>
    decreases points.len(),
{
    if points.len() == 0 {
        Seq::empty()
    } else if points.len() == 1 {
        point_text(points[0])
    } else {
        points_text(points.drop_last()) + " "@ + point_text(points.last())
    }
}

/// The children of the document's root: the background, the outline
/// through `points`, then one disc of radius `r` per centre, in order.
pub open spec fn drawing_children(
    points: Seq<(String, String)>,
    centers: Seq<(String, String)>,
    r: Seq<char>,
) -> Seq<ChildView> {
    seq![background_view(), outline_view(points_text(points))] + centers.map_values(
        |c: (String, String)| circle_view(c.0@, c.1@, r),
    )
}

/// The picture holds, after the background and the outline, exactly one
/// disc per circle centre, in the centres' order, all of the same radius.
pub proof fn one_disc_per_centre(
    points: Seq<(String, String)>,
    centers: Seq<(String, String)>,
    r: Seq<char>,
)
    ensures
        drawing_children(points, centers, r).len() == 2 + centers.len(),
        drawing_children(points, centers, r)[0] == background_view(),
        drawing_children(points, centers, r)[1] == outline_view(points_text(points)),
        forall|i: int|
            0 <= i < centers.len() ==> #[trigger] drawing_children(points, centers, r)[2 + i]
                == circle_view(centers[i].0@, centers[i].1@, r),
{
}

/// The texts of the canvas's numbers: its side is `800`, the outline's width
/// is `2`, and the view box starts at `0 0`.
proof fn canvas_numbers()
    ensures
        decimal(CANVAS_SIZE as nat) == "800"@,
        decimal(OUTLINE_WIDTH as nat) == "2"@,
        view_box_text(CANVAS_SIZE as nat) == "0 0 800 800"@,
{
    reveal_strlit("800");
    reveal_strlit("2");
    reveal_strlit("0 0 800 800");
    reveal_strlit(" ");
    reveal_with_fuel(decimal, 3);
    assert(decimal(8) =~= seq!['8']);
    assert(decimal(80) =~= seq!['8', '0']);
    assert(decimal(800) =~= "800"@);
    assert(decimal(2) =~= "2"@);
    assert(decimal(0) =~= seq!['0']);
    assert(view_box_text(800) =~= "0 0 800 800"@);
}

/// The root of the picture is an 800 by 800 canvas whose view box is
/// `0 0 800 800`, in the SVG namespace, with no other attribute.
pub proof fn canvas_is_800_square()
    ensures
        canvas_attributes().dom() =~= set!["xmlns"@, "width"@, "height"@, "viewBox"@],
        canvas_attributes()["xmlns"@] == "http://www.w3.org/2000/svg"@,
        canvas_attributes()["width"@] == "800"@,
        canvas_attributes()["height"@] == "800"@,
        canvas_attributes()["viewBox"@] == "0 0 800 800"@,
{
    canvas_numbers();
    reveal_strlit("xmlns");
    assert("xmlns"@.len() == 5 && "xmlns"@[0] == 'x' && "xmlns"@[1] == 'm');
    reveal_strlit("width");
    assert("width"@.len() == 5 && "width"@[0] == 'w' && "width"@[1] == 'i');
    reveal_strlit("height");
    assert("height"@.len() == 6 && "height"@[0] == 'h' && "height"@[1] == 'e');
    reveal_strlit("viewBox");
    assert("viewBox"@.len() == 7 && "viewBox"@[0] == 'v' && "viewBox"@[1] == 'i');
}

/// The first child of the picture is a white rectangle that covers the
/// whole canvas, with no other attribute and no child.
pub proof fn background_covers_the_canvas(
    points: Seq<(String, String)>,
    centers: Seq<(String, String)>,
    r: Seq<char>,
)
    ensures
        drawing_children(points, centers, r)[0].0 == "rect"@,
        drawing_children(points, centers, r)[0].1.dom() =~= set!["width"@, "height"@, "fill"@],
        drawing_children(points, centers, r)[0].1["width"@] == "100%"@,
        drawing_children(points, centers, r)[0].1["height"@] == "100%"@,
        drawing_children(points, centers, r)[0].1["fill"@] == "white"@,
        drawing_children(points, centers, r)[0].2 == 0,
{
    reveal_strlit("width");
    assert("width"@.len() == 5 && "width"@[0] == 'w' && "width"@[1] == 'i');
    reveal_strlit("height");
    assert("height"@.len() == 6 && "height"@[0] == 'h' && "height"@[1] == 'e');
    reveal_strlit("fill");
    assert("fill"@.len() == 4 && "fill"@[0] == 'f' && "fill"@[1] == 'i');
}

/// The second child of the picture is the outline through all the given
/// points, whatever they are: stroked black with width 2, not filled, with
/// no other attribute and no child.
pub proof fn outline_is_black_and_unfilled(
    points: Seq<(String, String)>,
    centers: Seq<(String, String)>,
    r: Seq<char>,
)
    ensures
        drawing_children(points, centers, r)[1].0 == "polygon"@,
        drawing_children(points, centers, r)[1].1.dom() =~= set![
            "points"@,
            "stroke"@,
            "stroke-width"@,
            "fill"@,
        ],
        drawing_children(points, centers, r)[1].1["points"@] == points_text(points),
        drawing_children(points, centers, r)[1].1["stroke"@] == "black"@,
        drawing_children(points, centers, r)[1].1["stroke-width"@] == "2"@,
        drawing_children(points, centers, r)[1].1["fill"@] == "none"@,
        drawing_children(points, centers, r)[1].2 == 0,
{
    canvas_numbers();
    reveal_strlit("points");
    assert("points"@.len() == 6 && "points"@[0] == 'p' && "points"@[1] == 'o');
    reveal_strlit("stroke");
    assert("stroke"@.len() == 6 && "stroke"@[0] == 's' && "stroke"@[1] == 't');
    reveal_strlit("stroke-width");
    assert("stroke-width"@.len() == 12 && "stroke-width"@[0] == 's' && "stroke-width"@[1] == 't');
    reveal_strlit("fill");
    assert("fill"@.len() == 4 && "fill"@[0] == 'f' && "fill"@[1] == 'i');
}

/// After the background and the outline come the discs, one per centre and
/// in the centres' order, and nothing else: disc `i` is centred at centre `i`,
/// has radius `r` and is filled steel-blue, whatever the texts of its centre
/// and radius, with no other attribute and no child.
pub proof fn discs_are_steel_blue(
    points: Seq<(String, String)>,
    centers: Seq<(String, String)>,
    r: Seq<char>,
)
    ensures
        drawing_children(points, centers, r).len() == 2 + centers.len(),
        forall|i: int|
            0 <= i < centers.len() ==> {
                let disc = #[trigger] drawing_children(points, centers, r)[2 + i];
                &&& disc.0 == "circle"@
                &&& disc.1.dom() =~= set!["cx"@, "cy"@, "r"@, "fill"@]
                &&& disc.1["cx"@] == centers[i].0@
                &&& disc.1["cy"@] == centers[i].1@
                &&& disc.1["r"@] == r
                &&& disc.1["fill"@] == "steelblue"@
                &&& disc.2 == 0
            },
{
    reveal_strlit("cx");
    assert("cx"@.len() == 2 && "cx"@[0] == 'c' && "cx"@[1] == 'x');
    reveal_strlit("cy");
    assert("cy"@.len() == 2 && "cy"@[0] == 'c' && "cy"@[1] == 'y');
    reveal_strlit("r");
    assert("r"@.len() == 1 && "r"@[0] == 'r');
    reveal_strlit("fill");
    assert("fill"@.len() == 4 && "fill"@[0] == 'f' && "fill"@[1] == 'i');
}

/// The outline's points are written one after the other, each as its `x`
/// text, a comma and its `y` text, with one space between two points: no
/// points give an empty text, one point gives `x,y`, and adding a point to
/// a non-empty list adds a space and that point at the end.
pub proof fn points_are_joined_by_spaces(points: Seq<(String, String)>, p: (String, String))
    ensures
        points_text(Seq::<(String, String)>::empty()) == Seq::<char>::empty(),
        points_text(seq![p]) == p.0@ + ","@ + p.1@,
        points.len() >= 1 ==> points_text(points.push(p)) == points_text(points) + " "@ + p.0@
            + ","@ + p.1@,
        points_text(points.push(p)).len() >= points_text(points).len() + p.0@.len() + 1
            + p.1@.len(),
{
    assert(points.push(p).drop_last() =~= points);
    if points.len() >= 1 {
        assert(points_text(points.push(p)) =~= points_text(points) + " "@ + p.0@ + ","@ + p.1@);
    }
    reveal_strlit(",");
    reveal_strlit(" ");
}

/// The value of the outline's `points` attribute: each point as `<x>,<y>`
/// from the texts of its coordinates, separated by single spaces.
pub fn points_attribute(points: &Vec<(String, String)>) -> (text: String)
    ensures
        text@ == points_text(points@),
{
    let mut text = String::new();
    let mut i: usize = 0;
    while i < points.len()
        invariant
            i <= points.len(),
            text@ == points_text(points@.take(i as int)),
        decreases points.len() - i,
    {
        proof {
            assert(points@.take(i + 1).drop_last() =~= points@.take(i as int));
        }
        if i > 0 {
            text.append(" ");
        }
        text.append(points[i].0.as_str());
        text.append(",");
        text.append(points[i].1.as_str());
        proof {
            if i == 0 {
                assert(text@ =~= point_text(points@[0]));
            } else {
                assert(text@ =~= points_text(points@.take(i as int)) + " "@ + point_text(points@[i as int]));
            }
        }
        i = i + 1;
    }
    proof {
        assert(points@.take(points.len() as int) =~= points@);
    }
    text
}

fn view_box(size: usize) -> (text: String)
    ensures
        text@ == view_box_text(size as nat),
{
    let mut text = decimal_string(0);
    text.append(" ");
    text.append(decimal_string(0).as_str());
    text.append(" ");
    text.append(decimal_string(size).as_str());
    text.append(" ");
    text.append(decimal_string(size).as_str());
    proof {
        assert(text@ =~= view_box_text(size as nat));
    }
    text
}

/// The picture as an `svg` root element: on a white square canvas of side
/// [`CANVAS_SIZE`], the black outline through `points`, then one steel-blue
/// disc of radius `radius` at each of `centers`. Every coordinate comes as
/// the text that the document shows.
pub fn build_document(
    points: &Vec<(String, String)>,
    centers: &Vec<(String, String)>,
    radius: &str,
) -> (doc: SVG)
    ensures
        document_tag(doc) == "svg"@,
        document_attributes(doc) == canvas_attributes(),
        document_children(doc) == drawing_children(points@, centers@, radius@),
{
    let size = decimal_string(CANVAS_SIZE);
    let mut doc = new_document();
    doc = set_document_attribute(doc, "width", size.as_str());
    doc = set_document_attribute(doc, "height", size.as_str());
    let vb = view_box(CANVAS_SIZE);
    doc = set_document_attribute(doc, "viewBox", vb.as_str());
    proof {
        assert(document_attributes(doc) =~= canvas_attributes());
    }

    let mut background = new_element("rect");
    assign_attribute(&mut background, "width", "100%");
    assign_attribute(&mut background, "height", "100%");
    assign_attribute(&mut background, "fill", "white");
    proof {
        assert(element_attributes(background) =~= background_view().1);
    }
    doc = add_element(doc, background);

    let outline_points = points_attribute(points);
    let stroke_width = decimal_string(OUTLINE_WIDTH);
    let mut outline = new_element("polygon");
    assign_attribute(&mut outline, "points", outline_points.as_str());
    assign_attribute(&mut outline, "stroke", "black");
    assign_attribute(&mut outline, "stroke-width", stroke_width.as_str());
    assign_attribute(&mut outline, "fill", "none");
    proof {
        assert(element_attributes(outline) =~= outline_view(points_text(points@)).1);
    }
    doc = add_element(doc, outline);

    let ghost head = seq![background_view(), outline_view(points_text(points@))];
    proof {
        assert(document_children(doc) =~= head);
    }
    let mut i: usize = 0;
    while i < centers.len()
        invariant
            i <= centers.len(),
            document_tag(doc) == "svg"@,
            document_attributes(doc) == canvas_attributes(),
            document_children(doc) == head + centers@.take(i as int).map_values(
                |c: (String, String)| circle_view(c.0@, c.1@, radius@),
            ),
        decreases centers.len() - i,
    {
        let mut disc = new_element("circle");
        assign_attribute(&mut disc, "cx", centers[i].0.as_str());
        assign_attribute(&mut disc, "cy", centers[i].1.as_str());
        assign_attribute(&mut disc, "r", radius);
        assign_attribute(&mut disc, "fill", "steelblue");
        proof {
            assert(element_attributes(disc) =~= circle_view(centers@[i as int].0@, centers@[i as int].1@, radius@).1);
        }
        doc = add_element(doc, disc);
        proof {
            assert(centers@.take(i + 1).map_values(|c: (String, String)| circle_view(c.0@, c.1@, radius@))
                =~= centers@.take(i as int).map_values(|c: (String, String)| circle_view(c.0@, c.1@, radius@))
                    .push(circle_view(centers@[i as int].0@, centers@[i as int].1@, radius@)));
        }
        i = i + 1;
    }
    proof {
        assert(centers@.take(centers.len() as int) =~= centers@);
    }
    doc
}

} // verus!
