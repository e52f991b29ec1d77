use vstd::prelude::*;

verus! {

/// Every way an operation can refuse to act. Each operation's contract says
/// exactly which variant comes back on which inputs; a failed operation never
/// changes the state.
#[derive(Clone, Copy, Debug, PartialEq, Eq, Structural)]
pub enum ContractError {
    /// The caller does not hold the role the operation demands.
    Unauthorized,
    /// A provider record already exists for this address.
    ProviderAlreadyRegistered,
    /// No provider record exists for the referenced address.
    ProviderNotFound,
    /// The referenced provider is currently deactivated.
    ProviderNotActive,
    /// No job record exists for the referenced id.
    JobNotFound,
    /// A required registration field (name, capabilities) is empty.
    InvalidProviderData,
    /// No payment in the designated asset was attached, or its amount is zero.
    NoPayment,
    /// The job is not in a lifecycle state that admits this transition.
    InvalidJobState,
    /// Cancellation was attempted after the allowance window closed.
    CancelWindowExpired,
    /// A mutating call arrived while the contract is paused.
    ContractPaused,
    /// A configuration value is out of range (fee percentage above 100).
    InvalidConfig,
    /// A fee subtraction would underflow; unreachable while the configured
    /// fee percentage is at most 100, but checked rather than trusted.
    ArithmeticError,
}

impl ContractError {
    /// The wording of each variant, for hosts that render errors as text.
    pub open spec fn spec_message(self) -> Seq<char> {
        match self {
            ContractError::Unauthorized => "Unauthorized"@,
            ContractError::ProviderAlreadyRegistered => "Provider already registered"@,
            ContractError::ProviderNotFound => "Provider not found"@,
            ContractError::ProviderNotActive => "Provider not active"@,
            ContractError::JobNotFound => "Job not found"@,
            ContractError::InvalidProviderData => "Invalid provider data"@,
            ContractError::NoPayment => "No payment provided"@,
            ContractError::InvalidJobState => "Job not in correct state"@,
            ContractError::CancelWindowExpired => "Cancellation window expired"@,
            ContractError::ContractPaused => "Contract is paused"@,
            ContractError::InvalidConfig => "Invalid configuration"@,
            ContractError::ArithmeticError => "Fee arithmetic underflow"@,
        }
    }

    pub fn message(&self) -> (r: String)
        ensures
            r@ == self.spec_message(),
    {
        match self {
            ContractError::Unauthorized => String::from_str("Unauthorized"),
            ContractError::ProviderAlreadyRegistered => String::from_str(
                "Provider already registered",
            ),
            ContractError::ProviderNotFound => String::from_str("Provider not found"),
            ContractError::ProviderNotActive => String::from_str("Provider not active"),
            ContractError::JobNotFound => String::from_str("Job not found"),
            ContractError::InvalidProviderData => String::from_str("Invalid provider data"),
            ContractError::NoPayment => String::from_str("No payment provided"),
            ContractError::InvalidJobState => String::from_str("Job not in correct state"),
            ContractError::CancelWindowExpired => String::from_str("Cancellation window expired"),
            ContractError::ContractPaused => String::from_str("Contract is paused"),
            ContractError::InvalidConfig => String::from_str("Invalid configuration"),
            ContractError::ArithmeticError => String::from_str("Fee arithmetic underflow"),
        }
    }
}

} // verus!
