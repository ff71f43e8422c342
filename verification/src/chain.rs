use vstd::prelude::*;

use crate::bytes::Address;

verus! {

/// One ESDT transfer attached to a call: which token, which nonce, how much.
#[derive(Clone, Debug)]
pub struct Payment {
    pub token_id: Vec<u8>,
    pub nonce: u64,
    pub amount: u128,
}

/// A token transfer that a contract sends out.
#[derive(Clone, Debug)]
pub struct Transfer {
    pub to: Address,
    pub token_id: Vec<u8>,
    pub nonce: u64,
    pub amount: u128,
}

} // verus!
