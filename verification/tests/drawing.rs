use circle::drawing::{build_document, points_attribute, CANVAS_SIZE, OUTLINE_WIDTH};
use svg::node::element::{Circle, Element, Polygon, Rectangle};
use svg::Document;
use svg::Node;

fn pairs(items: &[(&str, &str)]) -> Vec<(String, String)> {
    items
        .iter()
        .map(|(x, y)| (x.to_string(), y.to_string()))
        .collect()
}

#[test]
fn outline_points_are_joined_by_spaces() {
    assert_eq!(
        points_attribute(&pairs(&[("400", "100"), ("500", "200"), ("300", "200")])),
        "400,100 500,200 300,200"
    );
    assert_eq!(points_attribute(&pairs(&[("1.5", "-2")])), "1.5,-2");
    assert_eq!(points_attribute(&vec![]), "");
}

#[test]
fn document_text_is_exact() {
    let doc = build_document(
        &pairs(&[("400", "100"), ("500", "200")]),
        &pairs(&[("410", "150")]),
        "25",
    );
    assert_eq!(
        doc.to_string(),
        "<svg height=\"800\" viewBox=\"0 0 800 800\" width=\"800\" xmlns=\"http://www.w3.org/2000/svg\">\n\
         <rect fill=\"white\" height=\"100%\" width=\"100%\"/>\n\
         <polygon fill=\"none\" points=\"400,100 500,200\" stroke=\"black\" stroke-width=\"2\"/>\n\
         <circle cx=\"410\" cy=\"150\" fill=\"steelblue\" r=\"25\"/>\n\
         </svg>"
    );
}

#[test]
fn document_has_canvas_attributes_and_one_disc_per_centre() {
    let doc = build_document(
        &pairs(&[("400", "100"), ("500", "200"), ("300", "200")]),
        &pairs(&[("400", "150"), ("450", "180"), ("350", "180")]),
        "12.5",
    );
    let attributes = Element::get_attributes(&doc);
    assert_eq!(attributes["width"].to_string(), "800");
    assert_eq!(attributes["height"].to_string(), "800");
    assert_eq!(attributes["viewBox"].to_string(), "0 0 800 800");
    assert_eq!(attributes.len(), 4);
    let children = Element::get_children(&doc);
    assert_eq!(children.len(), 5);
    let names: Vec<&str> = children.iter().map(|c| c.get_name()).collect();
    assert_eq!(names, vec!["rect", "polygon", "circle", "circle", "circle"]);
    assert_eq!(Element::get_name(&doc), "svg");
    assert!(children.iter().all(|c| c.get_children().unwrap().is_empty()));
    let second = children[3].get_attributes().unwrap();
    assert_eq!(second["cx"].to_string(), "450");
    assert_eq!(second["cy"].to_string(), "180");
    assert_eq!(second["r"].to_string(), "12.5");
}

#[test]
fn document_matches_one_built_element_by_element() {
    let vertices = [(400.0_f64, 100.0_f64), (659.8_f64, 550.0_f64), (140.2_f64, 550.0_f64)];
    let centres = [(400.0_f64, 250.5_f64), (530.25_f64, 475.0_f64), (269.75_f64, 475.0_f64)];
    let radius = 51.1_f64;

    let width = 800;
    let height = 800;
    let points_str: String = vertices
        .iter()
        .map(|v| format!("{},{}", v.0, v.1))
        .collect::<Vec<_>>()
        .join(" ");
    let mut expected = Document::new()
        .set("width", width)
        .set("height", height)
        .set("viewBox", (0, 0, width, height))
        .add(
            Rectangle::new()
                .set("width", "100%")
                .set("height", "100%")
                .set("fill", "white"),
        )
        .add(
            Polygon::new()
                .set("points", points_str)
                .set("stroke", "black")
                .set("stroke-width", 2)
                .set("fill", "none"),
        );
    for c in centres.iter() {
        expected = expected.add(
            Circle::new()
                .set("cx", c.0)
                .set("cy", c.1)
                .set("r", radius)
                .set("fill", "steelblue"),
        );
    }

    let points: Vec<(String, String)> =
        vertices.iter().map(|v| (v.0.to_string(), v.1.to_string())).collect();
    let centers: Vec<(String, String)> =
        centres.iter().map(|c| (c.0.to_string(), c.1.to_string())).collect();
    let doc = build_document(&points, &centers, &radius.to_string());
    assert_eq!(doc.to_string(), expected.to_string());
    assert_eq!(CANVAS_SIZE, 800);
    assert_eq!(OUTLINE_WIDTH, 2);
}
