//! The component kinds a block lookup can request. The lookup state
//! machinery itself lives with the networking layer; only the response
//! classification is data.
use vstd::prelude::*;

verus! {

/// The kind of component a lookup response carries.
#[derive(Debug, Clone, Copy, PartialEq, Eq, Structural)]
pub enum ResponseType {
    Block,
    Blob,
    CustodyColumn,
}

} // verus!
