//! Structural validation of requests: name length bounds, metadata URL
//! shape, and the syntactic check of owner addresses, the last two through
//! the external validation collaborators.

use vstd::prelude::*;

use cosmwasm_std::Api;
use validator::ValidateUrl;

use crate::error::{ContractError, ErrorV};
use crate::msg::RegistrationMsg;
use crate::state::MetadataV;

verus! {

/// Whether a string is a syntactically valid URL. The checking itself is the
/// URL parser's; the registry only branches on its verdict.
pub uninterp spec fn is_valid_url(s: Seq<char>) -> bool;

/// Relies on `validator::ValidateUrl::validate_url` (`url::Url::parse` under
/// it): whether a string parses as a URL is a function of its characters
/// alone.
#[verifier::external_body]
pub(crate) fn url_is_valid(s: &str) -> (r: bool)
    ensures
        r == is_valid_url(s@),
{
    s.validate_url()
}

/// Whether a string is a syntactically valid identity handle.
pub uninterp spec fn is_valid_addr(s: Seq<char>) -> bool;

/// Relies on `cosmwasm_std::testing::MockApi::addr_validate`: with the
/// default prefix, acceptance is a function of the address characters alone,
/// and the accepted value is the input itself, so a verdict is all the
/// registry needs.
#[verifier::external_body]
pub(crate) fn addr_is_valid(s: &str) -> (r: bool)
    ensures
        r == is_valid_addr(s@),
{
    cosmwasm_std::testing::MockApi::default().addr_validate(s).is_ok()
}

/// A name must be 3 to 64 characters long.
pub open spec fn valid_name(name: Seq<char>) -> bool {
    3 <= name.len() <= 64
}

/// If a URL is recorded, it must be well formed.
pub open spec fn valid_metadata(m: MetadataV) -> bool {
    match m.url {
        Some(u) => is_valid_url(u),
        None => true,
    }
}

/// A registration request must carry a valid name and valid metadata.
pub open spec fn valid_registration(name: Seq<char>, m: MetadataV) -> bool {
    valid_name(name) && valid_metadata(m)
}

/// The first field a rejected registration violates.
pub open spec fn violated_field(name: Seq<char>, m: MetadataV) -> Seq<char> {
    if !valid_name(name) {
        "name"@
    } else {
        "url"@
    }
}

/// Structural validation of a registration request.
pub fn validate_registration(msg: &RegistrationMsg) -> (r: Result<(), ContractError>)
    ensures
        match r {
            Ok(_) => valid_registration(msg.name@, msg.metadata@),
            Err(e) => {
                &&& !valid_registration(msg.name@, msg.metadata@)
                &&& e@ == (ErrorV::Validation {
                    field: violated_field(msg.name@, msg.metadata@),
                })
            },
        },
{
    let len = msg.name.as_str().unicode_len();
    if len < 3 || len > 64 {
        return Err(ContractError::Validation { field: "name".to_owned() });
    }
    match &msg.metadata.url {
        Some(u) => {
            if !url_is_valid(u.as_str()) {
                return Err(ContractError::Validation { field: "url".to_owned() });
            }
        },
        None => {},
    }
    Ok(())
}

} // verus!
