//! The message normalizer: strips one leading occurrence of the
//! conventional "Uncaught " marker from the root error's display message.

use vstd::prelude::*;
use vstd::string::StrSliceExecFns;
use vstd::string::StringExecFns;

use crate::classify::{is_prefix_of, str_has_prefix};

verus! {

/// The message with one leading occurrence of "Uncaught " removed, if it is
/// there; otherwise the message unchanged.
pub open spec fn normalize_spec(m: Seq<char>) -> Seq<char> {
    if is_prefix_of("Uncaught "@, m) {
        m.subrange("Uncaught "@.len() as int, m.len() as int)
    } else {
        m
    }
}

/// Removes one leading "Uncaught " from the message, if present.
pub fn normalize_message(message: String) -> (r: String)
    ensures
        r@ == normalize_spec(message@),
{
    let s = message.as_str();
    if str_has_prefix(s, "Uncaught ") {
        proof {
            reveal_strlit("Uncaught ");
        }
        let len = s.unicode_len();
        let rest = s.substring_char(9, len);
        String::from_str(rest)
    } else {
        message
    }
}

} // verus!
