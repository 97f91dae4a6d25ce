//! The errors an operation or query can end in. Every error is terminal: a
//! failed operation leaves the registry unchanged.

use vstd::prelude::*;

use crate::state::{coins_view, Coin, CoinV};

verus! {

/// Why an operation or query was refused.
#[derive(Debug, PartialEq)]
pub enum ContractError {
    /// The attached funds were not exactly the one configured fee unit.
    /// Carries what was given and what was expected, for diagnostics.
    InvalidRegistrationFee { given: Vec<Coin>, expected: Coin },
    /// A structurally invalid request; names the first violated field.
    Validation { field: String },
    /// The operation targets a name that is not registered.
    NotFound,
    /// The caller may not do this: not the owner on transfer, or a name
    /// collision on register.
    Unauthorized,
    /// The entry records no validator address, or the directory has no
    /// matching record.
    NotAValidator,
}

/// Mathematical value of a [`ContractError`].
#[verifier::ext_equal]
pub enum ErrorV {
    InvalidRegistrationFee { given: Seq<CoinV>, expected: CoinV },
    Validation { field: Seq<char> },
    NotFound,
    Unauthorized,
    NotAValidator,
}

impl View for ContractError {
    type V = ErrorV;

    open spec fn view(&self) -> ErrorV {
        match self {
            ContractError::InvalidRegistrationFee { given, expected } =>
                ErrorV::InvalidRegistrationFee {
                    given: coins_view(given@),
                    expected: expected@,
                },
            ContractError::Validation { field } => ErrorV::Validation { field: field@ },
            ContractError::NotFound => ErrorV::NotFound,
            ContractError::Unauthorized => ErrorV::Unauthorized,
            ContractError::NotAValidator => ErrorV::NotAValidator,
        }
    }
}

} // verus!
