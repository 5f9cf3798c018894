//! Filtering and message normalization for test-failure error reports.
//!
//! A raw error report arrives as a tree: an error with its stack frames, an
//! optional causing error, and an optional list of aggregated sibling errors.
//! This crate hides the stack frames that come from the host's internal
//! machinery so that a failing test points at the user's own code, and strips
//! the conventional "Uncaught " prefix from the top-level message. Rendering
//! the resulting tree as text is left to the caller.

use vstd::prelude::*;

pub mod classify;
pub mod filter;
pub mod laws;
pub mod message;
pub mod tree;

use crate::filter::{abbreviate_test_error, filter_node};
use crate::message::{normalize_message, normalize_spec};
use crate::tree::{ErrorNode, NodeView};

verus! {

/// The whole transformation: the filtered tree, with the root node's message
/// normalized. Only the root's message is touched; messages of causes and
/// aggregated errors are kept as they are.
pub open spec fn format_spec(n: NodeView) -> NodeView {
    let f = filter_node(n);
    NodeView { message: normalize_spec(f.message), ..f }
}

/// Prepares one error report for display: filters internal frames throughout
/// the tree, then strips the "Uncaught " prefix from the root message. The
/// result is ready to be handed to a renderer.
pub fn format_test_error(root: &ErrorNode) -> (r: ErrorNode)
    ensures
        r@ == format_spec(root@),
{
    let filtered = abbreviate_test_error(root);
    let ErrorNode { message, frames, cause, aggregated } = filtered;
    let message = normalize_message(message);
    let r = ErrorNode { message, frames, cause, aggregated };
    proof {
        assert(r@ =~~= format_spec(root@));
    }
    r
}

} // verus!
