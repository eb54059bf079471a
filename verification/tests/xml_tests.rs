use shield_maker::xml::{Document, Node, Pusher, Renderer};

#[test]
fn writes_simple_element() {
    let person = Node::with_attributes("person", &[
        ("name", "Paul Appleseed"),
        ("email", "paul@example.org"),
    ]);
    let mut doc = Document::new();
    doc.push_node(person);

    let str = Renderer::render(&doc);
    assert_eq!(&str, "<person name=\"Paul Appleseed\" email=\"paul@example.org\"/>");
}

#[test]
fn writes_nested_elements() {
    let mut person = Node::with_attributes("person", &[
        ("name", "Paul Appleseed"),
        ("email", "paul@example.org"),
    ]);

    let mut todo = Node::with_name("Todo");
    let mut task = Node::with_name("Task");
    task.push_text("Water plants");
    todo.push_node(task);
    let mut task = Node::with_name("Task");
    task.push_text("Pet dog");
    todo.push_node(task);
    let mut task = Node::with_name("Task");
    task.push_text("Use Rust");
    todo.push_node(task);
    person.push_node(todo);

    let mut danger = Node::with_name("danger");
    danger.push_raw("some raw content!");
    person.push_node(danger);

    let mut doc = Document::new();
    doc.push_node(person);

    let str = Renderer::render(&doc);
    assert_eq!(&str, "<person name=\"Paul Appleseed\" email=\"paul@example.org\"><Todo><Task>Water plants</Task><Task>Pet dog</Task><Task>Use Rust</Task></Todo><danger>some raw content!</danger></person>");
}

#[test]
fn escapes_the_five_reserved_characters() {
    let mut doc = Document::new();
    doc.push_text("& < > \" '");
    let str = Renderer::render(&doc);
    assert_eq!(&str, "&amp; &lt; &gt; &quot; &apos;");
}

#[test]
fn escapes_attribute_values() {
    let node = Node::with_attributes("a", &[("title", "x<y & \"q\"")]);
    let mut doc = Document::new();
    doc.push_node(node);
    let str = Renderer::render(&doc);
    assert_eq!(&str, "<a title=\"x&lt;y &amp; &quot;q&quot;\"/>");
}

#[test]
fn raw_content_goes_through_verbatim() {
    let mut doc = Document::new();
    doc.push_raw("<already>escaped & done</already>");
    let str = Renderer::render(&doc);
    assert_eq!(&str, "<already>escaped & done</already>");
}

#[test]
fn childless_node_self_closes() {
    let mut doc = Document::new();
    doc.push_node(Node::with_name("tag"));
    assert_eq!(&Renderer::render(&doc), "<tag/>");
}

#[test]
fn node_with_children_opens_and_closes() {
    let mut outer = Node::with_name("tag");
    outer.push_text("");
    let mut doc = Document::new();
    doc.push_node(outer);
    assert_eq!(&Renderer::render(&doc), "<tag></tag>");
}

#[test]
fn order_follows_insertion_across_many_calls() {
    let mut node = Node::with_name("n");
    node.add_attr("a", "1");
    node.add_attrs(&[("b", "2"), ("c", "3")]);
    node.add_attr("d", "4");
    node.push_text("one");
    let mut two = Node::with_name("two");
    two.add_attr("x", "9");
    node.push_node(two);
    node.push_nodes(vec![Node::with_name("three"), Node::with_name("four")]);
    node.push_raw("five");
    let mut doc = Document::new();
    doc.push_node(node);
    assert_eq!(
        &Renderer::render(&doc),
        "<n a=\"1\" b=\"2\" c=\"3\" d=\"4\">one<two x=\"9\"/><three/><four/>five</n>"
    );
}

#[test]
fn duplicate_attributes_are_kept_in_order() {
    let mut node = Node::with_name("n");
    node.add_attr("k", "first");
    node.add_attr("k", "second");
    let mut doc = Document::new();
    doc.push_node(node);
    assert_eq!(&Renderer::render(&doc), "<n k=\"first\" k=\"second\"/>");
}

#[test]
fn builder_populates_before_sealing() {
    let node = Node::with_name_and("wrap", |mut n: Node| {
        n.add_attr("k", "v");
        n.push_text("body");
        n
    });
    let mut doc = Document::new();
    doc.push_node(node);
    assert_eq!(&Renderer::render(&doc), "<wrap k=\"v\">body</wrap>");
}

#[test]
fn document_renders_top_level_elements_in_order() {
    let mut doc = Document::new();
    doc.push_nodes(vec![Node::with_name("a"), Node::with_name("b")]);
    doc.push_text("tail");
    assert_eq!(&Renderer::render(&doc), "<a/><b/>tail");
}
