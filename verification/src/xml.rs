//! A minimal XML document model: an ownership tree of nodes, text and raw
//! fragments with ordered attribute lists, and a serializer that writes
//! escaped, well-formed markup in one unbroken line.

use vstd::prelude::*;

use crate::strutil::push_char;

verus! {

/// One item in a node's (or the document's) child list.
pub enum Element {
    /// Character data; escaped on output.
    Text(String),
    /// Markup emitted verbatim; the producer answers for well-formedness.
    Raw(String),
    /// A nested element.
    Node(Node),
}

/// An element: a tag name, an optional ordered attribute list, and an
/// optional ordered child list. A node with no child list renders
/// self-closing; one with an empty-but-present child list renders as an
/// open/close pair.
pub struct Node {
    name: String,
    attributes: Option<Vec<(String, String)>>,
    content: Option<Vec<Element>>,
}

/// The root container: an ordered list of top-level elements.
pub struct Document {
    elements: Vec<Element>,
}

/// The mathematical value of an `Element`.
pub enum ElementView {
    Text(Seq<char>),
    Raw(Seq<char>),
    Node(NodeView),
}

/// The mathematical value of a `Node`.
pub struct NodeView {
    pub name: Seq<char>,
    pub attributes: Option<Seq<(Seq<char>, Seq<char>)>>,
    pub content: Option<Seq<ElementView>>,
}

/// The views of an attribute list's entries, in order.
pub open spec fn attrs_view(v: Seq<(String, String)>) -> Seq<(Seq<char>, Seq<char>)> {
    Seq::new(v.len(), |i: int| (v[i].0@, v[i].1@))
}

/// The views of a child list's entries, in order.
pub open spec fn elems_view(s: Seq<Element>) -> Seq<ElementView>
    decreases s,
{
    if s.len() == 0 {
        Seq::empty()
    } else {
        elems_view(s.drop_last()).push(elem_view(s.last()))
    }
}

/// The view of one element.
pub open spec fn elem_view(e: Element) -> ElementView
    decreases e,
{
    match e {
        Element::Text(s) => ElementView::Text(s@),
        Element::Raw(s) => ElementView::Raw(s@),
        Element::Node(n) => ElementView::Node(node_view(n)),
    }
}

/// The view of one node.
pub closed spec fn node_view(n: Node) -> NodeView
    decreases n,
{
    NodeView {
        name: n.name@,
        attributes: match n.attributes {
            Option::None => None,
            Option::Some(v) => Some(attrs_view(v@)),
        },
        content: match n.content {
            Option::None => None,
            Option::Some(v) => Some(elems_view(v@)),
        },
    }
}

impl View for Element {
    type V = ElementView;

    open spec fn view(&self) -> ElementView {
        elem_view(*self)
    }
}

impl View for Node {
    type V = NodeView;

    open spec fn view(&self) -> NodeView {
        node_view(*self)
    }
}

impl View for Document {
    type V = Seq<ElementView>;

    closed spec fn view(&self) -> Seq<ElementView> {
        elems_view(self.elements@)
    }
}

/// Appending to a child list appends its view.
pub proof fn lemma_elems_view_push(s: Seq<Element>, e: Element)
    ensures
        elems_view(s.push(e)) == elems_view(s).push(elem_view(e)),
{
    assert(s.push(e).drop_last() =~= s);
}

/// The attribute list a node renders with: its attribute list, or the empty
/// one where none is present.
pub open spec fn attrs_of(n: NodeView) -> Seq<(Seq<char>, Seq<char>)> {
    match n.attributes {
        Some(a) => a,
        None => Seq::empty(),
    }
}

/// The child list a node appends to: its child list, or the empty one where
/// none is present yet.
pub open spec fn kids_of(n: NodeView) -> Seq<ElementView> {
    match n.content {
        Some(c) => c,
        None => Seq::empty(),
    }
}

/// The node after one more attribute: the pair goes to the end of the
/// attribute list, which comes into being if absent.
pub open spec fn with_attr(n: NodeView, name: Seq<char>, value: Seq<char>) -> NodeView {
    NodeView { attributes: Some(attrs_of(n).push((name, value))), ..n }
}

/// The container after one more child element, at the end of the child list.
pub trait Pusher: View + Sized {
    /// The view after appending one more child element.
    spec fn pushed_view(pre: Self::V, elem: ElementView) -> Self::V;

    /// Appends one element to the child list.
    fn push_element(&mut self, elem: Element)
        ensures
            final(self)@ == Self::pushed_view(old(self)@, elem@),
    ;

    /// Appends character data, to be escaped on output.
    fn push_text(&mut self, text: &str)
        ensures
            final(self)@ == Self::pushed_view(old(self)@, ElementView::Text(text@)),
    ;

    /// Appends markup to be emitted verbatim.
    fn push_raw(&mut self, content: &str)
        ensures
            final(self)@ == Self::pushed_view(old(self)@, ElementView::Raw(content@)),
    ;

    /// Appends a nested node.
    fn push_node(&mut self, node: Node)
        ensures
            final(self)@ == Self::pushed_view(old(self)@, ElementView::Node(node@)),
    ;
}

/// The views of a list of nodes, each as a child element, in order.
pub open spec fn nodes_views(s: Seq<Node>) -> Seq<ElementView> {
    Seq::new(s.len(), |i: int| ElementView::Node(s[i]@))
}

impl Node {
    /// A node with the given tag name and neither attributes nor children.
    pub fn with_name(name: &str) -> (n: Node)
        ensures
            n@ == (NodeView { name: name@, attributes: None, content: None }),
    {
        Node { name: name.to_owned(), attributes: None, content: None }
    }

    /// A node with the given tag name and the given attributes, in order.
    pub fn with_attributes(name: &str, attributes: &[(&str, &str)]) -> (n: Node)
        ensures
            n@.name == name@,
            n@.content is None,
            attributes@.len() == 0 ==> n@.attributes is None,
            attributes@.len() > 0 ==> n@.attributes == Some(
                Seq::new(attributes@.len(), |i: int| (attributes@[i].0@, attributes@[i].1@)),
            ),
    {
        let mut node = Node::with_name(name);
        let mut i: usize = 0;
        while i < attributes.len()
            invariant
                i <= attributes@.len(),
                node@.name == name@,
                node@.content is None,
                i == 0 ==> node@.attributes is None,
                i > 0 ==> node@.attributes == Some(
                    Seq::new(i as nat, |k: int| (attributes@[k].0@, attributes@[k].1@)),
                ),
            decreases attributes@.len() - i,
        {
            let attr = attributes[i];
            node.add_attr(attr.0, attr.1);
            proof {
                assert(attrs_of(node@) =~= Seq::new(
                    (i + 1) as nat,
                    |k: int| (attributes@[k].0@, attributes@[k].1@),
                ));
            }
            i += 1;
        }
        node
    }

    /// A node with the given tag name, populated by the given builder before
    /// it is handed back.
    pub fn with_name_and<F: FnOnce(Node) -> Node>(name: &str, and: F) -> (r: Node)
        requires
            forall|n: Node|
                n@ == (NodeView { name: name@, attributes: None, content: None })
                    ==> call_requires(and, (n,)),
        ensures
            exists|n: Node|
                n@ == (NodeView { name: name@, attributes: None, content: None })
                    && call_ensures(and, (n,), r),
    {
        and(Node::with_name(name))
    }

    /// Appends one attribute; duplicate names are kept, in insertion order.
    pub fn add_attr(&mut self, name: &str, value: &str)
        ensures
            final(self)@ == with_attr(old(self)@, name@, value@),
    {
        let ghost orig = *self;
        let pair = (name.to_owned(), value.to_owned());
        if self.attributes.is_none() {
            self.attributes = Some(Vec::new());
        }
        if let Some(v) = &mut self.attributes {
            let ghost pre = v@;
            proof {
                assert(attrs_view(pre) =~= attrs_of(orig@));
            }
            v.push(pair);
            proof {
                assert(attrs_view(v@) =~= attrs_view(pre).push((name@, value@)));
            }
        }
    }

    /// Appends every attribute of `attrs`, in order.
    pub fn add_attrs(&mut self, attrs: &[(&str, &str)])
        ensures
            attrs@.len() == 0 ==> final(self)@ == old(self)@,
            attrs@.len() > 0 ==> final(self)@ == (NodeView {
                attributes: Some(
                    attrs_of(old(self)@) + Seq::new(
                        attrs@.len(),
                        |i: int| (attrs@[i].0@, attrs@[i].1@),
                    ),
                ),
                ..old(self)@
            }),
    {
        let mut i: usize = 0;
        while i < attrs.len()
            invariant
                i <= attrs@.len(),
                i == 0 ==> *self == *old(self),
                i > 0 ==> self@ == (NodeView {
                    attributes: Some(
                        attrs_of(old(self)@) + Seq::new(
                            i as nat,
                            |k: int| (attrs@[k].0@, attrs@[k].1@),
                        ),
                    ),
                    ..old(self)@
                }),
            decreases attrs@.len() - i,
        {
            let attr = attrs[i];
            self.add_attr(attr.0, attr.1);
            proof {
                assert(attrs_of(self@) =~= attrs_of(old(self)@) + Seq::new(
                    (i + 1) as nat,
                    |k: int| (attrs@[k].0@, attrs@[k].1@),
                ));
            }
            i += 1;
        }
    }
}

impl Document {
    /// An empty document.
    pub fn new() -> (d: Document)
        ensures
            d@ == Seq::<ElementView>::empty(),
    {
        Document { elements: Vec::new() }
    }
}

impl Pusher for Node {
    open spec fn pushed_view(pre: NodeView, elem: ElementView) -> NodeView {
        NodeView { content: Some(kids_of(pre).push(elem)), ..pre }
    }

    fn push_element(&mut self, elem: Element) {
        let ghost e = elem@;
        if self.content.is_none() {
            self.content = Some(Vec::new());
        }
        if let Some(v) = &mut self.content {
            let ghost pre = v@;
            v.push(elem);
            proof {
                lemma_elems_view_push(pre, v@.last());
                assert(v@.drop_last() =~= pre);
                assert(elems_view(v@) =~= elems_view(pre).push(e));
            }
        }
    }

    fn push_text(&mut self, text: &str) {
        self.push_element(Element::Text(text.to_owned()));
    }

    fn push_raw(&mut self, content: &str) {
        self.push_element(Element::Raw(content.to_owned()));
    }

    fn push_node(&mut self, node: Node) {
        self.push_element(Element::Node(node));
    }
}

impl Pusher for Document {
    open spec fn pushed_view(pre: Seq<ElementView>, elem: ElementView) -> Seq<ElementView> {
        pre.push(elem)
    }

    fn push_element(&mut self, elem: Element) {
        let ghost e = elem@;
        let ghost pre = self.elements@;
        self.elements.push(elem);
        proof {
            lemma_elems_view_push(pre, self.elements@.last());
            assert(self.elements@.drop_last() =~= pre);
            assert(elems_view(self.elements@) =~= elems_view(pre).push(e));
        }
    }

    fn push_text(&mut self, text: &str) {
        self.push_element(Element::Text(text.to_owned()));
    }

    fn push_raw(&mut self, content: &str) {
        self.push_element(Element::Raw(content.to_owned()));
    }

    fn push_node(&mut self, node: Node) {
        self.push_element(Element::Node(node));
    }
}

impl Node {
    /// Appends every node of `nodes` as a child, in order.
    pub fn push_nodes(&mut self, nodes: Vec<Node>)
        ensures
            nodes@.len() == 0 ==> final(self)@ == old(self)@,
            nodes@.len() > 0 ==> final(self)@ == (NodeView {
                content: Some(kids_of(old(self)@) + nodes_views(nodes@)),
                ..old(self)@
            }),
    {
        let ghost all = nodes@;
        let mut nodes = nodes;
        let _len: usize = nodes.len();
        proof {
            assert(all.len() == _len as int);
        }
        let mut i: usize = 0;
        while nodes.len() > 0
            invariant
                i + nodes@.len() == all.len(),
                all.len() <= usize::MAX,
                nodes@ =~= all.skip(i as int),
                i == 0 ==> *self == *old(self),
                i > 0 ==> self@ == (NodeView {
                    content: Some(kids_of(old(self)@) + nodes_views(all.take(i as int))),
                    ..old(self)@
                }),
            decreases nodes@.len(),
        {
            let node = nodes.remove(0);
            proof {
                assert(node == all[i as int]);
                assert(nodes@ =~= all.skip(i as int + 1));
            }
            self.push_node(node);
            proof {
                assert(kids_of(old(self)@) + nodes_views(all.take(i as int + 1)) =~= (kids_of(
                    old(self)@,
                ) + nodes_views(all.take(i as int))).push(ElementView::Node(all[i as int]@)));
            }
            i += 1;
        }
        proof {
            assert(all.take(all.len() as int) =~= all);
            assert(kids_of(self@) =~= kids_of(old(self)@) + nodes_views(all));
        }
    }
}

impl Document {
    /// Appends every node of `nodes` at top level, in order.
    pub fn push_nodes(&mut self, nodes: Vec<Node>)
        ensures
            final(self)@ == old(self)@ + nodes_views(nodes@),
    {
        let ghost all = nodes@;
        let mut nodes = nodes;
        let _len: usize = nodes.len();
        let mut i: usize = 0;
        proof {
            assert(all.len() == _len as int);
            assert(self@ =~= old(self)@ + nodes_views(all.take(0)));
        }
        while nodes.len() > 0
            invariant
                i + nodes@.len() == all.len(),
                all.len() <= usize::MAX,
                nodes@ =~= all.skip(i as int),
                self@ == old(self)@ + nodes_views(all.take(i as int)),
            decreases nodes@.len(),
        {
            let node = nodes.remove(0);
            proof {
                assert(node == all[i as int]);
                assert(nodes@ =~= all.skip(i as int + 1));
            }
            self.push_node(node);
            proof {
                assert(old(self)@ + nodes_views(all.take(i as int + 1)) =~= (old(self)@
                    + nodes_views(all.take(i as int))).push(ElementView::Node(all[i as int]@)));
            }
            i += 1;
        }
        proof {
            assert(all.take(all.len() as int) =~= all);
            assert(self@ =~= old(self)@ + nodes_views(all));
        }
    }
}

/// Whether a character is one of the five XML-reserved characters that the
/// serializer escapes.
pub open spec fn is_reserved_char(c: char) -> bool {
    c == '&' || c == '<' || c == '>' || c == '"' || c == '\''
}

/// What one character becomes on output: its entity reference for the five
/// reserved characters, itself for every other character.
pub open spec fn escape_char(c: char) -> Seq<char> {
    if c == '&' {
        seq!['&', 'a', 'm', 'p', ';']
    } else if c == '<' {
        seq!['&', 'l', 't', ';']
    } else if c == '>' {
        seq!['&', 'g', 't', ';']
    } else if c == '"' {
        seq!['&', 'q', 'u', 'o', 't', ';']
    } else if c == '\'' {
        seq!['&', 'a', 'p', 'o', 's', ';']
    } else {
        seq![c]
    }
}

/// A string escaped character by character, in order.
pub open spec fn escape_seq(s: Seq<char>) -> Seq<char>
    decreases s.len(),
{
    if s.len() == 0 {
        Seq::empty()
    } else {
        escape_seq(s.drop_last()) + escape_char(s.last())
    }
}

/// What one attribute writes: a space, the name, `="`, the escaped value,
/// and a closing quote.
pub open spec fn render_attr(a: (Seq<char>, Seq<char>)) -> Seq<char> {
    seq![' '] + a.0 + seq!['=', '"'] + escape_seq(a.1) + seq!['"']
}

/// What an attribute list writes: each attribute's rendering, in order.
pub open spec fn render_attrs(attrs: Seq<(Seq<char>, Seq<char>)>) -> Seq<char>
    decreases attrs.len(),
{
    if attrs.len() == 0 {
        Seq::empty()
    } else {
        render_attrs(attrs.drop_last()) + render_attr(attrs.last())
    }
}

/// What one element writes: escaped text, verbatim raw content, or a nested
/// node's rendering.
pub open spec fn render_elem(e: ElementView) -> Seq<char>
    decreases e,
{
    match e {
        ElementView::Text(t) => escape_seq(t),
        ElementView::Raw(r) => r,
        ElementView::Node(n) => render_node(n),
    }
}

/// What a child list writes: each child's rendering, in order.
pub open spec fn render_elems(elems: Seq<ElementView>) -> Seq<char>
    decreases elems,
{
    if elems.len() == 0 {
        Seq::empty()
    } else {
        render_elems(elems.drop_last()) + render_elem(elems.last())
    }
}

/// What one node writes: `<`, the name, the attributes, then `/>` for a node
/// with no child list, or `>`, the children and `</name>` for a node with
/// one, empty or not.
pub open spec fn render_node(n: NodeView) -> Seq<char>
    decreases n,
{
    seq!['<'] + n.name + render_attrs(attrs_of(n)) + match n.content {
        None => seq!['/', '>'],
        Some(elems) => seq!['>'] + render_elems(elems) + seq!['<', '/'] + n.name + seq!['>'],
    }
}

/// What a whole document writes: each top-level element's rendering, in
/// order, with nothing in between.
pub open spec fn render_doc(elems: Seq<ElementView>) -> Seq<char> {
    render_elems(elems)
}

/// The serializer: walks a document depth first and writes escaped markup
/// into one growing string.
pub struct Renderer {
    inner: String,
}

impl View for Renderer {
    type V = Seq<char>;

    closed spec fn view(&self) -> Seq<char> {
        self.inner@
    }
}

impl Renderer {
    /// Writes `data` with the five reserved characters escaped.
    pub fn write_escaped(&mut self, data: &str)
        ensures
            final(self)@ == old(self)@ + escape_seq(data@),
    {
        let escaped = self.escape_xml(data);
        self.write_raw(escaped.as_str());
    }

    /// Writes `data` byte for byte.
    pub fn write_raw(&mut self, data: &str)
        ensures
            final(self)@ == old(self)@ + data@,
    {
        self.inner.append(data);
    }

    /// Writes one attribute: a space, the name, `="`, the escaped value and
    /// a closing quote.
    pub fn write_attr(&mut self, name: &str, value: &str)
        ensures
            final(self)@ == old(self)@ + render_attr((name@, value@)),
    {
        let escaped = self.escape_xml(value);
        self.write_raw(" ");
        self.write_raw(name);
        self.write_raw("=\"");
        self.write_raw(escaped.as_str());
        self.write_raw("\"");
        proof {
            reveal_strlit(" ");
            reveal_strlit("=\"");
            reveal_strlit("\"");
            assert(" "@ =~= seq![' ']);
            assert("=\""@ =~= seq!['=', '"']);
            assert("\""@ =~= seq!['"']);
            assert(old(self)@ + render_attr((name@, value@)) =~= old(self)@ + seq![' '] + name@
                + seq!['=', '"'] + escape_seq(value@) + seq!['"']);
        }
    }

    /// The text with the five reserved characters replaced by their entity
    /// references and every other character kept as it is.
    pub fn escape_xml(&self, text: &str) -> (r: String)
        ensures
            r@ == escape_seq(text@),
    {
        let n = text.unicode_len();
        let mut out = String::new();
        let mut i: usize = 0;
        while i < n
            invariant
                i <= n,
                n == text@.len(),
                out@ == escape_seq(text@.take(i as int)),
            decreases n - i,
        {
            let c = text.get_char(i);
            if c == '&' {
                out.append("&amp;");
                proof {
                    reveal_strlit("&amp;");
                    assert("&amp;"@ =~= escape_char(c));
                }
            } else if c == '<' {
                out.append("&lt;");
                proof {
                    reveal_strlit("&lt;");
                    assert("&lt;"@ =~= escape_char(c));
                }
            } else if c == '>' {
                out.append("&gt;");
                proof {
                    reveal_strlit("&gt;");
                    assert("&gt;"@ =~= escape_char(c));
                }
            } else if c == '"' {
                out.append("&quot;");
                proof {
                    reveal_strlit("&quot;");
                    assert("&quot;"@ =~= escape_char(c));
                }
            } else if c == '\'' {
                out.append("&apos;");
                proof {
                    reveal_strlit("&apos;");
                    assert("&apos;"@ =~= escape_char(c));
                }
            } else {
                push_char(&mut out, c);
                proof {
                    assert(seq![c] =~= escape_char(c));
                    assert(out@ =~= escape_seq(text@.take(i as int)) + escape_char(c));
                }
            }
            proof {
                assert(text@.take(i as int + 1).drop_last() =~= text@.take(i as int));
                assert(text@.take(i as int + 1).last() == text@[i as int]);
            }
            i += 1;
        }
        proof {
            assert(text@.take(n as int) =~= text@);
        }
        out
    }

    /// Writes one node: its tag, its attributes in insertion order, then its
    /// children in insertion order, self-closing where it has no child list.
    pub fn write_node(&mut self, node: &Node)
        ensures
            final(self)@ == old(self)@ + render_node(node@),
        decreases *node,
    {
        self.write_raw("<");
        self.write_raw(node.name.as_str());
        proof {
            reveal_strlit("<");
            assert("<"@ =~= seq!['<']);
        }
        let ghost header = old(self)@ + seq!['<'] + node@.name;
        if let Some(attrs) = &node.attributes {
            let mut i: usize = 0;
            while i < attrs.len()
                invariant
                    i <= attrs@.len(),
                    node@.attributes == Some(attrs_view(attrs@)),
                    self@ == header + render_attrs(attrs_view(attrs@).take(i as int)),
                decreases attrs@.len() - i,
            {
                let attr = &attrs[i];
                self.write_attr(attr.0.as_str(), attr.1.as_str());
                proof {
                    let a = attrs_view(attrs@);
                    assert(a.take(i as int + 1).drop_last() =~= a.take(i as int));
                    assert(a.take(i as int + 1).last() == a[i as int]);
                }
                i += 1;
            }
            proof {
                let a = attrs_view(attrs@);
                assert(a.take(a.len() as int) =~= a);
            }
        }
        proof {
            assert(self@ =~= header + render_attrs(attrs_of(node@)));
        }
        match &node.content {
            None => {
                self.write_raw("/>");
                proof {
                    reveal_strlit("/>");
                    assert("/>"@ =~= seq!['/', '>']);
                    assert(self@ =~= old(self)@ + render_node(node@));
                }
            },
            Some(elems) => {
                self.write_raw(">");
                proof {
                    reveal_strlit(">");
                    assert(">"@ =~= seq!['>']);
                }
                let ghost open_part = header + render_attrs(attrs_of(node@)) + seq!['>'];
                let mut i: usize = 0;
                while i < elems.len()
                    invariant
                        i <= elems@.len(),
                        node.content == Some(*elems),
                        node@.content == Some(elems_view(elems@)),
                        self@ == open_part + render_elems(elems_view(elems@).take(i as int)),
                    decreases elems@.len() - i,
                {
                    proof {
                        assert(decreases_to!(*node => node.content));
                        assert(decreases_to!(node.content => node.content->0));
                        assert(decreases_to!(*elems => elems@));
                        assert(decreases_to!(elems@ => elems@[i as int]));
                    }
                    self.trampoline(&elems[i]);
                    proof {
                        let ev = elems_view(elems@);
                        lemma_elems_view_index(elems@, i as int);
                        assert(ev.take(i as int + 1).drop_last() =~= ev.take(i as int));
                        assert(ev.take(i as int + 1).last() == ev[i as int]);
                    }
                    i += 1;
                }
                proof {
                    let ev = elems_view(elems@);
                    lemma_elems_view_len(elems@);
                    assert(ev.take(elems@.len() as int) =~= ev);
                }
                self.write_raw("</");
                self.write_raw(node.name.as_str());
                self.write_raw(">");
                proof {
                    reveal_strlit("</");
                    assert("</"@ =~= seq!['<', '/']);
                    assert(self@ =~= old(self)@ + render_node(node@));
                }
            },
        }
    }

    /// Writes one element of whichever kind.
    pub fn trampoline(&mut self, el: &Element)
        ensures
            final(self)@ == old(self)@ + render_elem(el@),
        decreases *el,
    {
        match el {
            Element::Text(txt) => self.write_escaped(txt.as_str()),
            Element::Raw(raw) => self.write_raw(raw.as_str()),
            Element::Node(node) => self.write_node(node),
        }
    }

    /// Serializes a whole document: every top-level element in order, one
    /// unbroken line, no inserted whitespace.
    pub fn render(doc: &Document) -> (s: String)
        ensures
            s@ == render_doc(doc@),
    {
        let mut writer = Renderer { inner: String::new() };
        let elems = &doc.elements;
        let mut i: usize = 0;
        while i < elems.len()
            invariant
                i <= elems@.len(),
                doc@ == elems_view(elems@),
                writer@ == render_elems(elems_view(elems@).take(i as int)),
            decreases elems@.len() - i,
        {
            writer.trampoline(&elems[i]);
            proof {
                let ev = elems_view(elems@);
                lemma_elems_view_index(elems@, i as int);
                assert(ev.take(i as int + 1).drop_last() =~= ev.take(i as int));
                assert(ev.take(i as int + 1).last() == ev[i as int]);
            }
            i += 1;
        }
        proof {
            let ev = elems_view(elems@);
            lemma_elems_view_len(elems@);
            assert(ev.take(elems@.len() as int) =~= ev);
        }
        writer.inner
    }
}

/// A child list's view has the element's view at every position.
pub proof fn lemma_elems_view_index(s: Seq<Element>, i: int)
    requires
        0 <= i < s.len(),
    ensures
        elems_view(s).len() == s.len(),
        elems_view(s)[i] == elem_view(s[i]),
    decreases s.len(),
{
    lemma_elems_view_len(s);
    if s.len() > 0 && i < s.len() - 1 {
        lemma_elems_view_index(s.drop_last(), i);
    }
}

/// A child list's view keeps its length.
pub proof fn lemma_elems_view_len(s: Seq<Element>)
    ensures
        elems_view(s).len() == s.len(),
    decreases s.len(),
{
    if s.len() > 0 {
        lemma_elems_view_len(s.drop_last());
    }
}

/// A node with an empty-but-present child list serializes as an open/close
/// pair, a node with no child list as a self-closing tag: whatever the name
/// and attributes, the two outputs differ.
pub proof fn lemma_empty_children_differs(
    name: Seq<char>,
    attributes: Option<Seq<(Seq<char>, Seq<char>)>>,
)
    ensures
        render_node(NodeView { name, attributes, content: Some(Seq::empty()) }) != render_node(
            NodeView { name, attributes, content: None },
        ),
{
    let with_list = NodeView { name, attributes, content: Some(Seq::empty()) };
    let without = NodeView { name, attributes, content: None };
    assert(render_elems(Seq::empty()) == Seq::<char>::empty());
    assert(render_node(with_list).len() == 5 + 2 * name.len() + render_attrs(attrs_of(
        with_list,
    )).len());
    assert(render_node(without).len() == 3 + name.len() + render_attrs(attrs_of(without)).len());
}

/// Attributes render in insertion order: the attribute list extended by one
/// more pair renders as before, with exactly that pair's rendering appended.
pub proof fn lemma_attr_insertion_order(
    attrs: Seq<(Seq<char>, Seq<char>)>,
    a: (Seq<char>, Seq<char>),
)
    ensures
        render_attrs(attrs.push(a)) == render_attrs(attrs) + render_attr(a),
{
    assert(attrs.push(a).drop_last() =~= attrs);
}

/// Children render in insertion order: the child list extended by one more
/// element renders as before, with exactly that element's rendering appended.
pub proof fn lemma_child_insertion_order(elems: Seq<ElementView>, e: ElementView)
    ensures
        render_elems(elems.push(e)) == render_elems(elems) + render_elem(e),
{
    assert(elems.push(e).drop_last() =~= elems);
}

/// Escaping alters nothing but the five reserved characters: a string
/// without any of them comes through unchanged.
pub proof fn lemma_escape_untouched(s: Seq<char>)
    requires
        forall|i: int| 0 <= i < s.len() ==> !is_reserved_char(#[trigger] s[i]),
    ensures
        escape_seq(s) == s,
    decreases s.len(),
{
    if s.len() > 0 {
        lemma_escape_untouched(s.drop_last());
        assert(!is_reserved_char(s.last()));
        assert(escape_char(s.last()) == seq![s.last()]);
        assert(s.drop_last() + seq![s.last()] =~= s);
    } else {
        assert(s =~= Seq::<char>::empty());
    }
}

} // verus!

