use vstd::prelude::*;

verus! {

/// An uppercase ASCII letter or a decimal digit.
pub open spec fn is_upper_alnum(c: u8) -> bool {
    (65 <= c <= 90) || (48 <= c <= 57)
}

/// A lowercase ASCII letter or a decimal digit.
pub open spec fn is_lower_alnum(c: u8) -> bool {
    (97 <= c <= 122) || (48 <= c <= 57)
}

/// The shape of an ESDT token identifier: a ticker of 3 to 10 uppercase letters or
/// digits, a dash, and 6 lowercase letters or digits (e.g. `ECT-f90acc`).
pub open spec fn is_valid_esdt_identifier_spec(id: Seq<u8>) -> bool {
    &&& 10 <= id.len() <= 17
    &&& forall|i: int| 0 <= i < id.len() - 7 ==> is_upper_alnum(#[trigger] id[i])
    &&& id[id.len() - 7] == 45
    &&& forall|i: int| id.len() - 6 <= i < id.len() ==> is_lower_alnum(#[trigger] id[i])
}

/// Calls `multiversx_chain_core::token_identifier_util::validate_token_identifier`.
/// Trusted: as its source shows, it accepts exactly the identifiers of the shape
/// `is_valid_esdt_identifier_spec` states.
#[verifier::external_body]
pub(crate) fn validate_token_identifier(id: &[u8]) -> (r: bool)
    ensures
        r == is_valid_esdt_identifier_spec(id@),
{
    multiversx_sc::chain_core::token_identifier_util::validate_token_identifier(id)
}

} // verus!
