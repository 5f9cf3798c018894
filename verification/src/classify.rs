//! The frame classifier: decides whether a stack frame belongs to the host's
//! internal machinery or to user code.
//!
//! A frame is internal exactly when its origin is present and starts with the
//! internal-namespace marker, in its bracketed form `"[ext:"` or its plain
//! form `"ext:"`. A frame without an origin cannot be verified as internal
//! and is treated as user code.

use vstd::prelude::*;
use vstd::string::StrSliceExecFns;

use crate::tree::{Frame, FrameView};

verus! {

/// `p` is a prefix of `s`.
pub open spec fn is_prefix_of(p: Seq<char>, s: Seq<char>) -> bool {
    p.len() <= s.len() && s.subrange(0, p.len() as int) == p
}

/// An origin string names internal code: it starts with the bracketed or the
/// plain form of the internal-namespace marker.
pub open spec fn internal_origin(s: Seq<char>) -> bool {
    is_prefix_of("[ext:"@, s) || is_prefix_of("ext:"@, s)
}

/// A frame is internal exactly when its origin is present and names internal
/// code; an absent origin means user code.
pub open spec fn frame_internal(f: FrameView) -> bool {
    match f.origin {
        Some(s) => internal_origin(s),
        None => false,
    }
}

/// `p` is a prefix of `s`, decided character by character.
pub fn str_has_prefix(s: &str, p: &str) -> (r: bool)
    ensures
        r == is_prefix_of(p@, s@),
{
    let n = p.unicode_len();
    let m = s.unicode_len();
    if n > m {
        return false;
    }
    let mut i: usize = 0;
    while i < n
        invariant
            i <= n,
            n == p@.len(),
            m == s@.len(),
            n <= m,
            forall|j: int| 0 <= j < i ==> s@[j] == p@[j],
        decreases n - i,
    {
        if s.get_char(i) != p.get_char(i) {
            assert(s@.subrange(0, p@.len() as int)[i as int] != p@[i as int]);
            return false;
        }
        i = i + 1;
    }
    assert(s@.subrange(0, p@.len() as int) =~= p@);
    true
}

/// Classifies one frame as internal or user code.
pub fn is_internal_frame(f: &Frame) -> (r: bool)
    ensures
        r == frame_internal(f@),
{
    match &f.origin {
        Some(origin) => {
            str_has_prefix(origin.as_str(), "[ext:") || str_has_prefix(origin.as_str(), "ext:")
        },
        None => false,
    }
}

} // verus!
