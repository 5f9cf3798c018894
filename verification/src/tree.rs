//! The error tree: stack frames, one error node, and its mathematical view.

use vstd::prelude::*;

verus! {

/// One stack-trace entry. `origin` identifies where the frame's code comes
/// from (a file or module identifier); it may be absent for synthetic or
/// native frames.
pub struct Frame {
    pub origin: Option<String>,
}

/// Mathematical view of a [`Frame`]: the origin as a sequence of characters.
pub ghost struct FrameView {
    pub origin: Option<Seq<char>>,
}

impl View for Frame {
    type V = FrameView;

    open spec fn view(&self) -> FrameView {
        FrameView { origin: match self.origin { Some(s) => Some(s@), None => None } }
    }
}

impl Clone for Frame {
    fn clone(&self) -> (r: Self)
        ensures
            r@ == self@,
    {
        Frame {
            origin: match &self.origin {
                Some(s) => Some(s.clone()),
                None => None,
            },
        }
    }
}

/// One error in a chain or tree of errors: a message, the ordered stack
/// frames (outermost first, innermost last), an optional causing error, and
/// an optional list of aggregated sibling errors.
pub struct ErrorNode {
    pub message: String,
    pub frames: Vec<Frame>,
    pub cause: Option<Box<ErrorNode>>,
    pub aggregated: Option<Vec<ErrorNode>>,
}

/// Mathematical view of an [`ErrorNode`].
#[verifier::ext_equal]
pub ghost struct NodeView {
    pub message: Seq<char>,
    pub frames: Seq<FrameView>,
    pub cause: Option<Box<NodeView>>,
    pub aggregated: Option<Seq<NodeView>>,
}

/// The views of a sequence of frames, in order.
pub open spec fn frames_view(s: Seq<Frame>) -> Seq<FrameView> {
    s.map_values(|f: Frame| f@)
}

/// The view of one error node, defined recursively over the tree.
pub open spec fn node_view(n: ErrorNode) -> NodeView
    decreases n,
{
    NodeView {
        message: n.message@,
        frames: frames_view(n.frames@),
        cause: match n.cause {
            Some(c) => Some(Box::new(node_view(*c))),
            None => None,
        },
        aggregated: match n.aggregated {
            Some(v) => Some(nodes_view(v@)),
            None => None,
        },
    }
}

/// The views of a sequence of error nodes, in order.
pub open spec fn nodes_view(s: Seq<ErrorNode>) -> Seq<NodeView>
    decreases s,
{
    if s.len() == 0 {
        Seq::empty()
    } else {
        seq![node_view(s[0])] + nodes_view(s.drop_first())
    }
}

impl View for ErrorNode {
    type V = NodeView;

    open spec fn view(&self) -> NodeView {
        node_view(*self)
    }
}

/// The number of error nodes in a tree: this node, its cause chain, and all
/// aggregated errors, counted recursively.
pub open spec fn node_count(n: NodeView) -> nat
    decreases n,
{
    1 + (match n.cause {
        Some(c) => node_count(*c),
        None => 0,
    }) + (match n.aggregated {
        Some(s) => nodes_count(s),
        None => 0,
    })
}

/// The total number of error nodes in a sequence of trees.
pub open spec fn nodes_count(s: Seq<NodeView>) -> nat
    decreases s,
{
    if s.len() == 0 {
        0
    } else {
        node_count(s[0]) + nodes_count(s.drop_first())
    }
}

/// `nodes_view` maps the view over the sequence element by element.
pub proof fn lemma_nodes_view_pointwise(s: Seq<ErrorNode>)
    ensures
        nodes_view(s).len() == s.len(),
        forall|i: int| 0 <= i < s.len() ==> nodes_view(s)[i] == node_view(s[i]),
    decreases s.len(),
{
    if s.len() > 0 {
        lemma_nodes_view_pointwise(s.drop_first());
    }
}

} // verus!
