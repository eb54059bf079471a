use shield_maker::style::Style;
use shield_maker::xml::{Document, Node, Pusher, Renderer};

#[test]
fn style_constants() {
    assert_eq!(Style::Flat.height(), 20);
    assert_eq!(Style::FlatSquare.height(), 20);
    assert_eq!(Style::Plastic.height(), 18);
    assert_eq!(Style::Flat.vertical_margin(), 0);
    assert_eq!(Style::FlatSquare.vertical_margin(), 0);
    assert_eq!(Style::Plastic.vertical_margin(), -10);
    assert!(Style::Flat.shadow());
    assert!(!Style::FlatSquare.shadow());
    assert!(Style::Plastic.shadow());
    assert_eq!(Style::Flat.clip_radius(), Some(3));
    assert_eq!(Style::FlatSquare.clip_radius(), None);
    assert_eq!(Style::Plastic.clip_radius(), Some(4));
}

#[test]
fn background_attributes_per_style() {
    assert_eq!(Style::Flat.background_attributes(), vec![("clip-path", "url(#r)")]);
    assert_eq!(Style::FlatSquare.background_attributes(), vec![("shape-rendering", "crispEdges")]);
    assert_eq!(Style::Plastic.background_attributes(), vec![("clip-path", "url(#r)")]);
}

fn render_fragments(style: Style) -> String {
    let clip = if style.shadow() { Some(Node::with_name("clipPath")) } else { None };
    let mut bg = Node::with_name("g");
    for (k, v) in style.background_attributes() {
        bg.add_attr(k, v);
    }
    let fg = Node::with_name("g");
    let fragments = style.render(clip, bg, fg);
    let mut doc = Document::new();
    doc.push_nodes(fragments);
    Renderer::render(&doc)
}

#[test]
fn flat_fragments() {
    assert_eq!(
        render_fragments(Style::Flat),
        "<linearGradient id=\"s\" x2=\"0\" y2=\"100%\">\
         <stop offset=\"0\" stop-color=\"#bbb\" stop-opacity=\".1\"/>\
         <stop offset=\"1\" stop-color=\"#000\" stop-opacity=\".1\"/>\
         </linearGradient>\
         <clipPath/>\
         <g clip-path=\"url(#r)\"/>\
         <g/>"
    );
}

#[test]
fn flat_square_fragments() {
    assert_eq!(
        render_fragments(Style::FlatSquare),
        "<g shape-rendering=\"crispEdges\"/><g/>"
    );
}

#[test]
fn plastic_fragments() {
    assert_eq!(
        render_fragments(Style::Plastic),
        "<linearGradient id=\"s\" x2=\"0\" y2=\"100%\">\
         <stop offset=\"0\" stop-color=\"#fff\" stop-opacity=\".7\"/>\
         <stop offset=\".1\" stop-color=\"#aaa\" stop-opacity=\".1\"/>\
         <stop offset=\".9\" stop-color=\"#000\" stop-opacity=\".3\"/>\
         <stop offset=\"1\" stop-color=\"#000\" stop-opacity=\".5\"/>\
         </linearGradient>\
         <clipPath/>\
         <g clip-path=\"url(#r)\"/>\
         <g/>"
    );
}
