//! Who may change what: a stored item is changed or deleted by its owner only.

use vstd::prelude::*;

verus! {

/// The answer to a request to change or delete a stored item.
#[derive(Debug, Clone, Copy, PartialEq, Eq, Structural)]
pub enum Access {
    /// The caller owns the item.
    Granted,
    /// The item belongs to someone else.
    Forbidden,
    /// There is no such item.
    NotFound,
}

/// Decides a request of `caller` on an item, given the owner of the item as
/// the store returned it: `None` where the store has no such item.
///
/// The owner of a message is its sender, the owner of an order or an offer is
/// the user who placed it, the owner of a review is its author, and the owner
/// of a user's record is that user. The status of an offer belongs to the
/// owner of the order that the offer was made on.
pub fn owner_access(owner: Option<usize>, caller: usize) -> (r: Access)
    ensures
        r == match owner {
            None => Access::NotFound,
            Some(id) => if id == caller {
                Access::Granted
            } else {
                Access::Forbidden
            },
        },
{
    match owner {
        None => Access::NotFound,
        Some(id) => if id == caller {
            Access::Granted
        } else {
            Access::Forbidden
        },
    }
}

} // verus!
