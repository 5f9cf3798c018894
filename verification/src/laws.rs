//! What holds of filtering, stated and proved over the whole tree: filtering
//! is a no-op on user-only trees, keeps all-internal traces verbatim,
//! preserves the node count, and preserves the relative order of surviving
//! frames and of aggregated errors.

use vstd::prelude::*;

use crate::classify::frame_internal;
use crate::filter::{
    all_internal, filter_frames, filter_node, filter_nodes, lemma_filter_nodes_pointwise,
    trim_trailing_internal,
};
use crate::tree::{node_count, nodes_count, NodeView};

verus! {

/// No frame anywhere in the tree is classified internal.
pub open spec fn no_internal_frames(n: NodeView) -> bool
    decreases n,
{
    &&& forall|i: int| 0 <= i < n.frames.len() ==> !frame_internal(n.frames[i])
    &&& match n.cause {
        Some(c) => no_internal_frames(*c),
        None => true,
    }
    &&& match n.aggregated {
        Some(s) => no_internal_frames_seq(s),
        None => true,
    }
}

/// No frame anywhere in any of the trees is classified internal.
pub open spec fn no_internal_frames_seq(s: Seq<NodeView>) -> bool
    decreases s,
{
    s.len() == 0 || (no_internal_frames(s[0]) && no_internal_frames_seq(s.drop_first()))
}

/// A tree whose every frame is already classified as user code is returned
/// unchanged at every node: filtering is a no-op on it.
pub proof fn lemma_user_only_tree_unchanged(n: NodeView)
    requires
        no_internal_frames(n),
    ensures
        filter_node(n) == n,
    decreases n,
{
    if n.frames.len() > 0 {
        assert(!frame_internal(n.frames.last()));
    }
    match n.cause {
        Some(c) => lemma_user_only_tree_unchanged(*c),
        None => (),
    }
    match n.aggregated {
        Some(s) => lemma_user_only_seq_unchanged(s),
        None => (),
    }
    assert(filter_node(n) =~~= n);
}

/// Filtering is a no-op on every tree of a sequence with user-only frames.
pub proof fn lemma_user_only_seq_unchanged(s: Seq<NodeView>)
    requires
        no_internal_frames_seq(s),
    ensures
        filter_nodes(s) == s,
    decreases s,
{
    if s.len() > 0 {
        lemma_user_only_tree_unchanged(s[0]);
        lemma_user_only_seq_unchanged(s.drop_first());
        assert(filter_nodes(s) =~~= s);
    } else {
        assert(filter_nodes(s) =~~= s);
    }
}

/// A node whose frames are all classified internal keeps its frames
/// unchanged, even though the filter ran on it.
pub proof fn lemma_all_internal_preserved(n: NodeView)
    requires
        all_internal(n.frames),
    ensures
        filter_node(n).frames == n.frames,
{
}

/// Filtering never changes the number of error nodes in the tree.
pub proof fn lemma_count_preserved(n: NodeView)
    ensures
        node_count(filter_node(n)) == node_count(n),
    decreases n,
{
    match n.cause {
        Some(c) => lemma_count_preserved(*c),
        None => (),
    }
    match n.aggregated {
        Some(s) => lemma_count_preserved_seq(s),
        None => (),
    }
}

/// Filtering never changes the total number of error nodes in a sequence of
/// trees.
pub proof fn lemma_count_preserved_seq(s: Seq<NodeView>)
    ensures
        nodes_count(filter_nodes(s)) == nodes_count(s),
    decreases s,
{
    if s.len() > 0 {
        lemma_count_preserved(s[0]);
        lemma_count_preserved_seq(s.drop_first());
        let f = seq![filter_node(s[0])] + filter_nodes(s.drop_first());
        assert(f[0] == filter_node(s[0]));
        assert(f.drop_first() =~= filter_nodes(s.drop_first()));
    }
}

/// The trim keeps an initial segment of the frame sequence.
pub proof fn lemma_trim_is_prefix(s: Seq<crate::tree::FrameView>)
    ensures
        trim_trailing_internal(s).len() <= s.len(),
        forall|i: int|
            0 <= i < trim_trailing_internal(s).len() ==> trim_trailing_internal(s)[i] == s[i],
    decreases s.len(),
{
    if s.len() > 0 && frame_internal(s.last()) {
        lemma_trim_is_prefix(s.drop_last());
        assert forall|i: int|
            0 <= i < trim_trailing_internal(s).len() implies trim_trailing_internal(s)[i]
            == s[i] by {
            assert(trim_trailing_internal(s)[i] == s.drop_last()[i]);
        }
    }
}

/// Order preservation: at any node, the surviving frames are an initial
/// segment of the input frames (same frames, same relative order), and the
/// aggregated errors come out one for one, in their original order.
pub proof fn lemma_order_preserved(n: NodeView)
    ensures
        filter_node(n).frames.len() <= n.frames.len(),
        forall|i: int|
            0 <= i < filter_node(n).frames.len() ==> filter_node(n).frames[i] == n.frames[i],
        n.aggregated is Some ==> {
            &&& filter_node(n).aggregated is Some
            &&& filter_node(n).aggregated->0.len() == n.aggregated->0.len()
            &&& forall|i: int|
                0 <= i < n.aggregated->0.len() ==> filter_node(n).aggregated->0[i] == filter_node(
                    n.aggregated->0[i],
                )
        },
        n.aggregated is None ==> filter_node(n).aggregated is None,
{
    lemma_trim_is_prefix(n.frames);
    match n.aggregated {
        Some(s) => lemma_filter_nodes_pointwise(s),
        None => (),
    }
}

/// Recursive application: the filter reaches the cause exactly as it reaches
/// the root, whatever the root's own frames look like — a present cause is
/// filtered by the same rule, an absent one stays absent.
pub proof fn lemma_cause_filtered(n: NodeView)
    ensures
        n.cause is Some ==> filter_node(n).cause == Some(Box::new(filter_node(*n.cause->0))),
        n.cause is None ==> filter_node(n).cause is None,
{
}

} // verus!
