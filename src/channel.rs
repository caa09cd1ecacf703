use vstd::prelude::*;
use crate::pending::Element;

verus! {

/// The reply to the introspection call, as far as the channel lookup reads it.
#[derive(Debug, PartialEq, Eq)]
pub enum Reply {
    /// An array, with its elements.
    Array(Vec<Element>),
    /// Any reply that is not an array.
    Other,
}

/// This client's channel: the first element of the reply where the reply is an
/// array and that element is an integer that fits in a `u64`.
pub open spec fn channel_of(reply: &Reply) -> Option<u64> {
    match reply {
        Reply::Array(items) => if items@.len() > 0 {
            match items@[0] {
                Element::Int(n) => if 0 <= n <= u64::MAX {
                    Some(n as u64)
                } else {
                    None
                },
                Element::Other => None,
            }
        } else {
            None
        },
        Reply::Other => None,
    }
}

/// Reads this client's channel from the reply to the introspection call.
pub fn channel_id(reply: &Reply) -> (r: Option<u64>)
    ensures
        r == channel_of(reply),
{
    match reply {
        Reply::Array(items) => {
            if items.len() > 0 {
                match &items[0] {
                    Element::Int(n) => if 0 <= *n && *n <= u64::MAX as i128 {
                        Some(*n as u64)
                    } else {
                        None
                    },
                    Element::Other => None,
                }
            } else {
                None
            }
        },
        Reply::Other => None,
    }
}

} // verus!
