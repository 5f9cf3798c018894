//! The chain filter: strips the trailing run of internal frames from each
//! error node, recursively over the cause chain and the aggregated errors.
//!
//! Frames are ordered outermost first, innermost last, so the trailing run is
//! the one closest to the point of failure. A node is filtered only when at
//! least one of its frames is user code: a trace that is internal from end to
//! end is kept verbatim, so that a genuinely internal failure still shows
//! something.

use vstd::prelude::*;

use crate::classify::{frame_internal, is_internal_frame};
use crate::tree::{frames_view, nodes_view, ErrorNode, Frame, FrameView, NodeView};

verus! {

/// Every frame of the sequence is internal. Holds vacuously of an empty
/// sequence.
pub open spec fn all_internal(frames: Seq<FrameView>) -> bool {
    forall|i: int| 0 <= i < frames.len() ==> frame_internal(frames[i])
}

/// The sequence with its trailing run of internal frames removed: frames are
/// dropped from the innermost end for as long as they are internal, stopping
/// at the first user-code frame.
pub open spec fn trim_trailing_internal(frames: Seq<FrameView>) -> Seq<FrameView>
    decreases frames.len(),
{
    if frames.len() == 0 {
        frames
    } else if frame_internal(frames.last()) {
        trim_trailing_internal(frames.drop_last())
    } else {
        frames
    }
}

/// What filtering does to one node's frame sequence: an all-internal (or
/// empty) sequence is kept verbatim; otherwise the trailing internal run is
/// removed.
pub open spec fn filter_frames(frames: Seq<FrameView>) -> Seq<FrameView> {
    if all_internal(frames) {
        frames
    } else {
        trim_trailing_internal(frames)
    }
}

/// What filtering does to one node: its frames are filtered, and the cause
/// and every aggregated error are filtered recursively. The message and the
/// shape of the tree are untouched.
pub open spec fn filter_node(n: NodeView) -> NodeView
    decreases n,
{
    NodeView {
        message: n.message,
        frames: filter_frames(n.frames),
        cause: match n.cause {
            Some(c) => Some(Box::new(filter_node(*c))),
            None => None,
        },
        aggregated: match n.aggregated {
            Some(s) => Some(filter_nodes(s)),
            None => None,
        },
    }
}

/// Filtering applied to each node of a sequence, in order.
pub open spec fn filter_nodes(s: Seq<NodeView>) -> Seq<NodeView>
    decreases s,
{
    if s.len() == 0 {
        Seq::empty()
    } else {
        seq![filter_node(s[0])] + filter_nodes(s.drop_first())
    }
}

/// `filter_nodes` maps `filter_node` over the sequence element by element:
/// the length and the relative order of aggregated errors are preserved.
pub proof fn lemma_filter_nodes_pointwise(s: Seq<NodeView>)
    ensures
        filter_nodes(s).len() == s.len(),
        forall|i: int| 0 <= i < s.len() ==> filter_nodes(s)[i] == filter_node(s[i]),
    decreases s.len(),
{
    if s.len() > 0 {
        lemma_filter_nodes_pointwise(s.drop_first());
    }
}

/// Where the trailing internal run starts, there the trim ends: if every
/// frame from `end` on is internal and the frame just before `end` (if any)
/// is user code, the trim keeps exactly the first `end` frames.
pub proof fn lemma_trim_point(s: Seq<FrameView>, end: int)
    requires
        0 <= end <= s.len(),
        forall|j: int| end <= j < s.len() ==> frame_internal(s[j]),
        end > 0 ==> !frame_internal(s[end - 1]),
    ensures
        trim_trailing_internal(s) =~= s.subrange(0, end),
    decreases s.len(),
{
    if s.len() == 0 {
    } else if end == s.len() {
    } else {
        assert(frame_internal(s.last()));
        lemma_trim_point(s.drop_last(), end);
    }
}

/// Filters one node's frame vector: keeps everything up to and including the
/// innermost user-code frame, or the whole vector when no frame is user code.
fn filter_frames_vec(frames: &Vec<Frame>) -> (r: Vec<Frame>)
    ensures
        frames_view(r@) == filter_frames(frames_view(frames@)),
{
    let ghost fv = frames_view(frames@);
    // One pass: `end` is one past the innermost user-code frame seen so far,
    // or 0 while none has been seen.
    let mut end: usize = 0;
    let mut i: usize = 0;
    while i < frames.len()
        invariant
            i <= frames@.len(),
            fv == frames_view(frames@),
            fv.len() == frames@.len(),
            end <= i,
            forall|j: int| end <= j < i ==> frame_internal(fv[j]),
            end > 0 ==> !frame_internal(fv[end - 1]),
        decreases frames@.len() - i,
    {
        if !is_internal_frame(&frames[i]) {
            end = i + 1;
        }
        i = i + 1;
    }
    // `end == 0` means every frame is internal: keep the whole trace.
    let limit: usize = if end == 0 {
        frames.len()
    } else {
        end
    };
    proof {
        if end == 0 {
            assert(all_internal(fv));
            assert(fv.subrange(0, fv.len() as int) =~= fv);
        } else {
            assert(!all_internal(fv));
            lemma_trim_point(fv, end as int);
        }
        assert(filter_frames(fv) =~= fv.subrange(0, limit as int));
    }
    let mut out: Vec<Frame> = Vec::new();
    let mut k: usize = 0;
    while k < limit
        invariant
            k <= limit <= frames@.len(),
            fv == frames_view(frames@),
            fv.len() == frames@.len(),
            out@.len() == k,
            forall|j: int| 0 <= j < k ==> out@[j]@ == fv[j],
        decreases limit - k,
    {
        out.push(frames[k].clone());
        k = k + 1;
    }
    proof {
        assert(frames_view(out@) =~= fv.subrange(0, limit as int));
    }
    out
}

/// Filters internal frames throughout an error tree: at every node the
/// trailing run of internal frames is removed (unless the whole trace is
/// internal), and the cause chain and aggregated errors are processed the
/// same way. Messages, the node count and all orderings are preserved.
pub fn abbreviate_test_error(n: &ErrorNode) -> (r: ErrorNode)
    ensures
        r@ == filter_node(n@),
    decreases *n,
{
    let frames = filter_frames_vec(&n.frames);
    let cause = match &n.cause {
        Some(c) => Some(Box::new(abbreviate_test_error(c))),
        None => None,
    };
    let aggregated = match &n.aggregated {
        Some(v) => {
            let mut out: Vec<ErrorNode> = Vec::new();
            let mut i: usize = 0;
            while i < v.len()
                invariant
                    i <= v@.len(),
                    n.aggregated == Some(*v),
                    out@.len() == i,
                    forall|j: int| 0 <= j < i ==> crate::tree::node_view(out@[j])
                        == filter_node(crate::tree::node_view(v@[j])),
                decreases v@.len() - i,
            {
                proof {
                    assert(n.aggregated == Some(*v));
                    assert(decreases_to!(*n => n.aggregated));
                    assert(decreases_to!(n.aggregated => n.aggregated->0));
                    assert(decreases_to!(*v => v@[i as int]));
                }
                out.push(abbreviate_test_error(&v[i]));
                i = i + 1;
            }
            proof {
                crate::tree::lemma_nodes_view_pointwise(out@);
                crate::tree::lemma_nodes_view_pointwise(v@);
                lemma_filter_nodes_pointwise(nodes_view(v@));
                assert(nodes_view(out@) =~= filter_nodes(nodes_view(v@)));
            }
            Some(out)
        },
        None => None,
    };
    let r = ErrorNode { message: n.message.clone(), frames, cause, aggregated };
    proof {
        assert(r@ =~~= filter_node(n@));
    }
    r
}

} // verus!
