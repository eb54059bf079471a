//! The three visual badge styles and the SVG fragments that set them apart:
//! gradients, clip radii and the extra attributes on the shared background
//! group. Every style is a pure, stateless strategy.

use vstd::prelude::*;

use crate::xml::{with_attr, Node, NodeView, Pusher};

verus! {

/// The three interchangeable visual treatments.
pub enum Style {
    /// Rounded corners and a subtle top-to-bottom shade.
    Flat,
    /// Square corners, no gradient, crisp edges.
    FlatSquare,
    /// A slightly lower badge with a glossy four-stop gradient.
    Plastic,
}

/// One stop of a linear gradient: an offset, a stop color and an opacity,
/// each as attribute text.
pub struct GradientStop {
    pub offset: &'static str,
    pub stop_color: &'static str,
    pub stop_opacity: &'static str,
}

impl GradientStop {
    /// Writes the stop as the three conventional SVG attributes, in order.
    pub fn into_attributes(&self, n: &mut Node)
        ensures
            final(n)@ == with_attr(
                with_attr(
                    with_attr(old(n)@, "offset"@, self.offset@),
                    "stop-color"@,
                    self.stop_color@,
                ),
                "stop-opacity"@,
                self.stop_opacity@,
            ),
    {
        n.add_attr("offset", self.offset);
        n.add_attr("stop-color", self.stop_color);
        n.add_attr("stop-opacity", self.stop_opacity);
    }
}

/// The views of a list of nodes, in order.
pub open spec fn node_views(s: Seq<Node>) -> Seq<NodeView> {
    Seq::new(s.len(), |i: int| s[i]@)
}

/// The view of one `<stop>` element of a gradient.
pub open spec fn stop_view(offset: Seq<char>, color: Seq<char>, opacity: Seq<char>) -> NodeView {
    NodeView {
        name: "stop"@,
        attributes: Some(
            seq![("offset"@, offset), ("stop-color"@, color), ("stop-opacity"@, opacity)],
        ),
        content: None,
    }
}

/// The view of a `<linearGradient id="s" x2="0" y2="100%">` element holding
/// the given stops.
pub open spec fn gradient_view(stops: Seq<NodeView>) -> NodeView {
    NodeView {
        name: "linearGradient"@,
        attributes: Some(seq![("id"@, "s"@), ("x2"@, "0"@), ("y2"@, "100%"@)]),
        content: Some(Seq::new(stops.len(), |i: int| crate::xml::ElementView::Node(stops[i]))),
    }
}

impl Style {
    /// How far the badge reaches above its nominal box: nothing for the two
    /// flat styles, ten pixels for the plastic one.
    pub fn vertical_margin(&self) -> (m: i32)
        ensures
            m == match self {
                Style::Flat => 0i32,
                Style::FlatSquare => 0i32,
                Style::Plastic => -10i32,
            },
    {
        match self {
            Style::Flat => 0,
            Style::FlatSquare => 0,
            Style::Plastic => -10,
        }
    }

    /// The badge height in pixels.
    pub fn height(&self) -> (h: u32)
        ensures
            h == match self {
                Style::Flat => 20u32,
                Style::FlatSquare => 20u32,
                Style::Plastic => 18u32,
            },
    {
        match self {
            Style::Flat => 20,
            Style::FlatSquare => 20,
            Style::Plastic => 18,
        }
    }

    /// Whether the style shades its boxes with a gradient and clips them.
    pub fn shadow(&self) -> (s: bool)
        ensures
            s == self.spec_shadow(),
    {
        match self {
            Style::Flat => true,
            Style::FlatSquare => false,
            Style::Plastic => true,
        }
    }

    /// Whether the style shades its boxes with a gradient and clips them.
    pub open spec fn spec_shadow(self) -> bool {
        match self {
            Style::Flat => true,
            Style::FlatSquare => false,
            Style::Plastic => true,
        }
    }

    /// The gradient fragment the style decorates its boxes with, if any.
    pub open spec fn spec_gradient(self) -> Option<NodeView> {
        match self {
            Style::Flat => Some(
                gradient_view(
                    seq![
                        stop_view("0"@, "#bbb"@, ".1"@),
                        stop_view("1"@, "#000"@, ".1"@),
                    ],
                ),
            ),
            Style::FlatSquare => None,
            Style::Plastic => Some(
                gradient_view(
                    seq![
                        stop_view("0"@, "#fff"@, ".7"@),
                        stop_view(".1"@, "#aaa"@, ".1"@),
                        stop_view(".9"@, "#000"@, ".3"@),
                        stop_view("1"@, "#000"@, ".5"@),
                    ],
                ),
            ),
        }
    }

    /// The corner radius of the style's clip path, for the styles that clip.
    pub fn clip_radius(&self) -> (r: Option<u32>)
        ensures
            r == match self {
                Style::Flat => Some(3u32),
                Style::FlatSquare => None::<u32>,
                Style::Plastic => Some(4u32),
            },
    {
        match self {
            Style::Flat => Some(3),
            Style::FlatSquare => None,
            Style::Plastic => Some(4),
        }
    }

    /// The extra attributes the style puts on the shared background group:
    /// the clip-path linkage for the clipping styles, crisp edges for the
    /// square one.
    pub fn background_attributes(&self) -> (v: Vec<(&'static str, &'static str)>)
        ensures
            v@.len() == 1,
            match self {
                Style::Flat => v@[0].0@ == "clip-path"@ && v@[0].1@ == "url(#r)"@,
                Style::FlatSquare => v@[0].0@ == "shape-rendering"@ && v@[0].1@ == "crispEdges"@,
                Style::Plastic => v@[0].0@ == "clip-path"@ && v@[0].1@ == "url(#r)"@,
            },
    {
        let mut v: Vec<(&'static str, &'static str)> = Vec::new();
        match self {
            Style::Flat => v.push(("clip-path", "url(#r)")),
            Style::FlatSquare => v.push(("shape-rendering", "crispEdges")),
            Style::Plastic => v.push(("clip-path", "url(#r)")),
        }
        v
    }

    /// The style's root-level fragments, in order: the gradient and the clip
    /// path where the style shades, then the background group, then the
    /// foreground group.
    pub fn render(
        &self,
        clip_path: Option<Node>,
        background_group: Node,
        foreground_group: Node,
    ) -> (v: Vec<Node>)
        requires
            self.spec_shadow() ==> clip_path is Some,
        ensures
            self.spec_shadow() ==> node_views(v@) == seq![
                self.spec_gradient()->0,
                (clip_path->0)@,
                background_group@,
                foreground_group@,
            ],
            !self.spec_shadow() ==> node_views(v@) == seq![
                background_group@,
                foreground_group@,
            ],
    {
        let mut v: Vec<Node> = Vec::new();
        match self {
            Style::FlatSquare => {
                v.push(background_group);
                v.push(foreground_group);
                proof {
                    assert(node_views(v@) =~= seq![v@[0]@, v@[1]@]);
                }
            },
            Style::Flat => {
                let stops = vec![
                    GradientStop { offset: "0", stop_color: "#bbb", stop_opacity: ".1" },
                    GradientStop { offset: "1", stop_color: "#000", stop_opacity: ".1" },
                ];
                let grad = Self::make_gradient(&stops);
                proof {
                    assert(Seq::new(
                        stops@.len(),
                        |i: int|
                            stop_view(
                                stops@[i].offset@,
                                stops@[i].stop_color@,
                                stops@[i].stop_opacity@,
                            ),
                    ) =~= seq![stop_view("0"@, "#bbb"@, ".1"@), stop_view("1"@, "#000"@, ".1"@)]);
                }
                v.push(grad);
                v.push(clip_path.unwrap());
                v.push(background_group);
                v.push(foreground_group);
                proof {
                    assert(v@[0]@ == self.spec_gradient()->0);
                    assert(node_views(v@) =~= seq![v@[0]@, v@[1]@, v@[2]@, v@[3]@]);
                }
            },
            Style::Plastic => {
                let stops = vec![
                    GradientStop { offset: "0", stop_color: "#fff", stop_opacity: ".7" },
                    GradientStop { offset: ".1", stop_color: "#aaa", stop_opacity: ".1" },
                    GradientStop { offset: ".9", stop_color: "#000", stop_opacity: ".3" },
                    GradientStop { offset: "1", stop_color: "#000", stop_opacity: ".5" },
                ];
                let grad = Self::make_gradient(&stops);
                proof {
                    assert(Seq::new(
                        stops@.len(),
                        |i: int|
                            stop_view(
                                stops@[i].offset@,
                                stops@[i].stop_color@,
                                stops@[i].stop_opacity@,
                            ),
                    ) =~= seq![
                        stop_view("0"@, "#fff"@, ".7"@),
                        stop_view(".1"@, "#aaa"@, ".1"@),
                        stop_view(".9"@, "#000"@, ".3"@),
                        stop_view("1"@, "#000"@, ".5"@),
                    ]);
                }
                v.push(grad);
                v.push(clip_path.unwrap());
                v.push(background_group);
                v.push(foreground_group);
                proof {
                    assert(v@[0]@ == self.spec_gradient()->0);
                    assert(node_views(v@) =~= seq![v@[0]@, v@[1]@, v@[2]@, v@[3]@]);
                }
            },
        }
        v
    }

    /// Builds the `<linearGradient>` element with one `<stop>` child per
    /// entry of `stops`, in order.
    fn make_gradient(stops: &Vec<GradientStop>) -> (n: Node)
        requires
            stops@.len() > 0,
        ensures
            n@ == gradient_view(
                Seq::new(
                    stops@.len(),
                    |i: int| stop_view(stops@[i].offset@, stops@[i].stop_color@, stops@[i].stop_opacity@),
                ),
            ),
    {
        let mut n = Node::with_name("linearGradient");
        n.add_attr("id", "s");
        n.add_attr("x2", "0");
        n.add_attr("y2", "100%");
        proof {
            assert(crate::xml::attrs_of(n@) =~= seq![("id"@, "s"@), ("x2"@, "0"@), ("y2"@, "100%"@)]);
        }
        let ghost views = Seq::new(
            stops@.len(),
            |i: int| stop_view(stops@[i].offset@, stops@[i].stop_color@, stops@[i].stop_opacity@),
        );
        let mut i: usize = 0;
        while i < stops.len()
            invariant
                i <= stops@.len(),
                views == Seq::new(
                    stops@.len(),
                    |k: int|
                        stop_view(
                            stops@[k].offset@,
                            stops@[k].stop_color@,
                            stops@[k].stop_opacity@,
                        ),
                ),
                n@.name == "linearGradient"@,
                n@.attributes == Some(seq![("id"@, "s"@), ("x2"@, "0"@), ("y2"@, "100%"@)]),
                i == 0 ==> n@.content is None,
                i > 0 ==> n@.content == Some(
                    Seq::new(i as nat, |k: int| crate::xml::ElementView::Node(views[k])),
                ),
            decreases stops@.len() - i,
        {
            let mut stop_node = Node::with_name("stop");
            stops[i].into_attributes(&mut stop_node);
            proof {
                assert(crate::xml::attrs_of(stop_node@) =~= seq![
                    ("offset"@, stops@[i as int].offset@),
                    ("stop-color"@, stops@[i as int].stop_color@),
                    ("stop-opacity"@, stops@[i as int].stop_opacity@),
                ]);
                assert(stop_node@ == views[i as int]);
            }
            n.push_node(stop_node);
            proof {
                assert(crate::xml::kids_of(n@) =~= Seq::new(
                    (i + 1) as nat,
                    |k: int| crate::xml::ElementView::Node(views[k]),
                ));
            }
            i += 1;
        }
        proof {
            assert(crate::xml::kids_of(n@) =~= Seq::new(
                stops@.len(),
                |k: int| crate::xml::ElementView::Node(views[k]),
            ));
            assert(n@ == gradient_view(views));
        }
        n
    }
}

} // verus!
