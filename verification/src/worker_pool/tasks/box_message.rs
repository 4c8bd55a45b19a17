use vstd::prelude::*;
use crate::network::identity::{Identity, PrivateIdentity};

verus! {

/// A request to box a message from `sender` for `recipient`.
pub struct BoxMessageRequest {
    pub type_is: String,
    pub message: String,
    pub sender: PrivateIdentity,
    pub recipient: Identity,
}

/// The answer to a box request: the nonce and the boxed message.
pub struct BoxMessageResponse {
    pub type_is: String,
    pub nonce: String,
    pub boxed_msg: String,
}

} // verus!
