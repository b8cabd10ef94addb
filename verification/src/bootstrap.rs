//! Attestation-gated bootstrap: the decisions that bring a freshly started
//! enclave to a registered, funded state on the parentchain.  The chain
//! calls themselves (nonce query, attestation, transfer, submission) are
//! the process's part; this module fixes, for every phase and every
//! collaborator answer, the next phase and the next action — and when the
//! whole bootstrap aborts instead.

use vstd::prelude::*;
use crate::sync::Header;
use crate::types::{Balance, H256, Index};

verus! {

/// Factor applied to the existential deposit when the development-mode
/// faucet tops an account up.
pub const EXISTENTIAL_DEPOSIT_FACTOR_FOR_INIT_FUNDS: u128 = 1000;

/// Factor applied to the registration fee to fix the minimum balance an
/// enclave must hold before registering in production mode.
pub const REGISTERING_FEE_FACTOR_FOR_INIT_FUNDS: u128 = 10;

/// Failures that abort a bootstrap; none is retried in-process.
#[derive(Debug, Clone, Copy, PartialEq, Eq)]
pub enum BootstrapError {
    /// The chain reported no fee details for the registration extrinsic.
    MissingFeeDetails,
    /// The fee details carried no inclusion fee.
    MissingInclusionFee,
    /// The enclave account holds less than the required minimum; carries
    /// the missing amount, for the operator to fund out-of-band and retry.
    InsufficientFunds(Balance),
    /// The faucet account cannot cover the needed top-up.
    ApplicationSetup,
    /// The reported event does not belong to the phase at hand.
    UnexpectedEvent,
}

pub open spec fn sat_mul(a: u128, b: u128) -> u128 {
    if a * b > u128::MAX {
        u128::MAX
    } else {
        (a * b) as u128
    }
}

fn saturating_mul_u128(a: u128, b: u128) -> (r: u128)
    ensures
        r == sat_mul(a, b),
{
    match a.checked_mul(b) {
        Some(v) => v,
        None => u128::MAX,
    }
}

// ----- registration fees -----

/// The inclusion-fee breakdown the chain reports for an extrinsic.
#[derive(Debug, Clone, Copy, PartialEq, Eq)]
pub struct InclusionFee {
    pub base_fee: Balance,
    pub len_fee: Balance,
    pub adjusted_weight_fee: Balance,
}

pub open spec fn spec_inclusion_fee(f: InclusionFee) -> Balance {
    (f.base_fee + f.len_fee + f.adjusted_weight_fee) as Balance
}

impl InclusionFee {
    /// The total inclusion fee.
    pub fn inclusion_fee(&self) -> (r: Balance)
        requires
            self.base_fee + self.len_fee + self.adjusted_weight_fee <= u128::MAX,
        ensures
            r == spec_inclusion_fee(*self),
    {
        self.base_fee + self.len_fee + self.adjusted_weight_fee
    }
}

/// Fee details for an extrinsic, as far as registration reads them.
#[derive(Debug, Clone, Copy, PartialEq, Eq)]
pub struct FeeDetails {
    pub inclusion_fee: Option<InclusionFee>,
}

/// Whether the fee amounts at hand stay within the balance type.
pub open spec fn wf_fee_details(d: Option<FeeDetails>) -> bool {
    d matches Some(details) ==> (details.inclusion_fee matches Some(f) ==> f.base_fee + f.len_fee
        + f.adjusted_weight_fee <= u128::MAX)
}

/// What the registration fee works out to, or why it cannot be known.
pub open spec fn spec_registration_fees(d: Option<FeeDetails>) -> Result<Balance, BootstrapError> {
    match d {
        Some(details) => match details.inclusion_fee {
            Some(f) => Ok(spec_inclusion_fee(f)),
            None => Err(BootstrapError::MissingInclusionFee),
        },
        None => Err(BootstrapError::MissingFeeDetails),
    }
}

/// Extracts the registration fee from the reported fee details, failing
/// with a distinct error for absent details and for an absent inclusion
/// fee.
pub fn enclave_registration_fees(reg_fee_details: &Option<FeeDetails>) -> (r: Result<
    Balance,
    BootstrapError,
>)
    requires
        wf_fee_details(*reg_fee_details),
    ensures
        r == spec_registration_fees(*reg_fee_details),
{
    match reg_fee_details {
        Some(details) => match &details.inclusion_fee {
            Some(fee) => Ok(fee.inclusion_fee()),
            None => Err(BootstrapError::MissingInclusionFee),
        },
        None => Err(BootstrapError::MissingFeeDetails),
    }
}

// ----- funding decisions -----

/// What the development-mode faucet must still add: the shortfall against
/// `existential_deposit × EXISTENTIAL_DEPOSIT_FACTOR_FOR_INIT_FUNDS`.
pub open spec fn spec_dev_missing_funds(free_balance: Balance, existential_deposit: Balance)
    -> Balance {
    let min = sat_mul(existential_deposit, EXISTENTIAL_DEPOSIT_FACTOR_FOR_INIT_FUNDS);
    if min > free_balance {
        (min - free_balance) as Balance
    } else {
        0
    }
}

/// Computes the faucet top-up still needed to reach the development-mode
/// floor; zero when the account already holds enough.
pub fn ensure_account_has_funds(free_balance: Balance, existential_deposit: Balance) -> (r:
    Balance)
    ensures
        r == spec_dev_missing_funds(free_balance, existential_deposit),
{
    let min_required_funds = saturating_mul_u128(
        existential_deposit,
        EXISTENTIAL_DEPOSIT_FACTOR_FOR_INIT_FUNDS,
    );
    min_required_funds.saturating_sub(free_balance)
}

/// Decides whether the faucet can cover a top-up: refused when the amount
/// exceeds the faucet's own free balance, else the transfer to perform.
pub fn bootstrap_funds_from_alice(funding_amount: Balance, faucet_free: Balance) -> (r: Result<
    Balance,
    BootstrapError,
>)
    ensures
        funding_amount > faucet_free ==> r == Err::<Balance, BootstrapError>(
            BootstrapError::ApplicationSetup,
        ),
        funding_amount <= faucet_free ==> r == Ok::<Balance, BootstrapError>(funding_amount),
{
    if funding_amount > faucet_free {
        return Err(BootstrapError::ApplicationSetup);
    }
    Ok(funding_amount)
}

/// The production-mode shortfall against
/// `registration_fees × REGISTERING_FEE_FACTOR_FOR_INIT_FUNDS`.
pub open spec fn spec_prod_missing_funds(free_balance: Balance, registration_fees: Balance)
    -> Balance {
    let min = sat_mul(registration_fees, REGISTERING_FEE_FACTOR_FOR_INIT_FUNDS);
    if min > free_balance {
        (min - free_balance) as Balance
    } else {
        0
    }
}

/// The whole funding decision: in development mode the faucet tops the
/// account up to the floor, refused only when the faucet itself is short;
/// in production mode no automatic funding occurs, and a balance below
/// `fees × REGISTERING_FEE_FACTOR_FOR_INIT_FUNDS` aborts with the missing
/// amount.  `Ok` carries the faucet transfer to perform (zero for none).
pub open spec fn spec_account_funding(
    dev: bool,
    free_balance: Balance,
    fee_details: Option<FeeDetails>,
    existential_deposit: Balance,
    faucet_free: Balance,
) -> Result<Balance, BootstrapError> {
    if dev {
        let missing = spec_dev_missing_funds(free_balance, existential_deposit);
        if missing == 0 {
            Ok(0)
        } else if missing > faucet_free {
            Err(BootstrapError::ApplicationSetup)
        } else {
            Ok(missing)
        }
    } else {
        match spec_registration_fees(fee_details) {
            Ok(fees) => {
                let missing = spec_prod_missing_funds(free_balance, fees);
                if missing > 0 {
                    Err(BootstrapError::InsufficientFunds(missing))
                } else {
                    Ok(0)
                }
            },
            Err(e) => Err(e),
        }
    }
}

/// Decides account funding before registration; see
/// [`spec_account_funding`] for the exact decision.
pub fn account_funding(
    dev: bool,
    free_balance: Balance,
    fee_details: &Option<FeeDetails>,
    existential_deposit: Balance,
    faucet_free: Balance,
) -> (r: Result<Balance, BootstrapError>)
    requires
        wf_fee_details(*fee_details),
    ensures
        r == spec_account_funding(dev, free_balance, *fee_details, existential_deposit,
            faucet_free),
{
    if dev {
        let missing = ensure_account_has_funds(free_balance, existential_deposit);
        if missing == 0 {
            Ok(0)
        } else {
            bootstrap_funds_from_alice(missing, faucet_free)
        }
    } else {
        let registration_fees = match enclave_registration_fees(fee_details) {
            Ok(f) => f,
            Err(e) => {
                return Err(e);
            },
        };
        let min_required_funds = saturating_mul_u128(
            registration_fees,
            REGISTERING_FEE_FACTOR_FOR_INIT_FUNDS,
        );
        let missing_funds = min_required_funds.saturating_sub(free_balance);
        if missing_funds > 0 {
            return Err(BootstrapError::InsufficientFunds(missing_funds));
        }
        Ok(0)
    }
}

/// Whether this enclave registered first: true exactly when no enclave was
/// registered at the parent of its registration block.
pub fn primary_validateer(enclave_count_of_previous_block: u64) -> (r: bool)
    ensures
        r == (enclave_count_of_previous_block == 0),
{
    enclave_count_of_previous_block == 0
}

// ----- the bootstrap state machine -----

/// Configuration of a bootstrap run.  Skipping remote attestation is an
/// explicit, non-default choice, not a runtime fallback.
#[derive(Debug, Clone, Copy, PartialEq, Eq)]
pub struct BootstrapConfig {
    pub skip_ra: bool,
    pub dev: bool,
}

/// The linear bootstrap phases; there are no backward transitions.
#[derive(Debug)]
pub enum BootstrapPhase {
    Init,
    NonceFetched { nonce: Index },
    CredentialObtained { nonce: Index },
    Registered { header: Header },
    Complete { handle: RegisteredHandle },
}

/// What a collaborator reports back to the bootstrap.
#[derive(Debug)]
pub enum BootstrapEvent {
    NonceIs { nonce: Index },
    CredentialReady { extrinsic: Vec<u8> },
    FundingInfo {
        free_balance: Balance,
        fee_details: Option<FeeDetails>,
        existential_deposit: Balance,
        faucet_free: Balance,
        extrinsic: Vec<u8>,
    },
    ExtrinsicFinalized { header: Header },
    EnclaveCountAtParent { count: u64 },
}

/// What the process must perform next.
#[derive(Debug)]
pub enum BootstrapAction {
    /// Query the enclave account's on-chain nonce and set it into the
    /// ledger.
    FetchNonce,
    /// Produce the registration credential: a remote attestation, or the
    /// unsigned mock registration when attestation is skipped.
    ObtainCredential { mock: bool, nonce: Index },
    /// Fetch balances, fee details and the existential deposit for the
    /// extrinsic at hand.
    FetchFundingInfo,
    /// Transfer `top_up` from the faucet if nonzero, then submit the
    /// registration extrinsic and await finality.
    SubmitRegistration { top_up: Balance, extrinsic: Vec<u8> },
    /// Count the enclaves registered at the given parent block.
    QueryEnclaveCountAtParent { parent_hash: H256 },
    /// Bootstrap is complete.
    Done,
}

/// Outcome of a completed bootstrap: whether this instance registered
/// first, and the header that finalized its registration.
#[derive(Debug, Clone, Copy, PartialEq, Eq)]
pub struct RegisteredHandle {
    pub primary: bool,
    pub header: Header,
}

impl RegisteredHandle {
    /// Whether this instance must import historical parentchain blocks.
    pub fn is_primary(&self) -> (r: bool)
        ensures
            r == self.primary,
    {
        self.primary
    }

    /// The header of the block that finalized the registration.
    pub fn registration_header(&self) -> (r: Header)
        ensures
            r == self.header,
    {
        self.header
    }
}

/// The action a bootstrap run starts with.
pub fn bootstrap_initial_action() -> (r: BootstrapAction)
    ensures
        r is FetchNonce,
{
    BootstrapAction::FetchNonce
}

/// The transition relation of the bootstrap: for a phase and a collaborator
/// answer, the next phase and action, or the abort.  Any answer arriving in
/// the wrong phase is refused; a funding refusal aborts the whole run, so
/// no registration is ever submitted without funds.
pub open spec fn spec_bootstrap_step(
    config: BootstrapConfig,
    phase: BootstrapPhase,
    event: BootstrapEvent,
) -> Result<(BootstrapPhase, BootstrapAction), BootstrapError> {
    match (phase, event) {
        (BootstrapPhase::Init, BootstrapEvent::NonceIs { nonce }) => Ok(
            (
                BootstrapPhase::NonceFetched { nonce },
                BootstrapAction::ObtainCredential { mock: config.skip_ra, nonce },
            ),
        ),
        (
            BootstrapPhase::NonceFetched { nonce },
            BootstrapEvent::CredentialReady { extrinsic },
        ) => Ok((BootstrapPhase::CredentialObtained { nonce }, BootstrapAction::FetchFundingInfo)),
        (
            BootstrapPhase::CredentialObtained { nonce },
            BootstrapEvent::FundingInfo {
                free_balance,
                fee_details,
                existential_deposit,
                faucet_free,
                extrinsic,
            },
        ) => {
            match spec_account_funding(
                config.dev,
                free_balance,
                fee_details,
                existential_deposit,
                faucet_free,
            ) {
                Ok(top_up) => Ok(
                    (
                        BootstrapPhase::CredentialObtained { nonce },
                        BootstrapAction::SubmitRegistration { top_up, extrinsic },
                    ),
                ),
                Err(e) => Err(e),
            }
        },
        (
            BootstrapPhase::CredentialObtained { nonce },
            BootstrapEvent::ExtrinsicFinalized { header },
        ) => Ok(
            (
                BootstrapPhase::Registered { header },
                BootstrapAction::QueryEnclaveCountAtParent { parent_hash: header.parent_hash },
            ),
        ),
        (
            BootstrapPhase::Registered { header },
            BootstrapEvent::EnclaveCountAtParent { count },
        ) => Ok(
            (
                BootstrapPhase::Complete {
                    handle: RegisteredHandle { primary: count == 0, header },
                },
                BootstrapAction::Done,
            ),
        ),
        _ => Err(BootstrapError::UnexpectedEvent),
    }
}

/// Performs one bootstrap transition; the decision is exactly
/// [`spec_bootstrap_step`].
pub fn bootstrap_step(
    config: &BootstrapConfig,
    phase: BootstrapPhase,
    event: BootstrapEvent,
) -> (r: Result<(BootstrapPhase, BootstrapAction), BootstrapError>)
    requires
        (event matches BootstrapEvent::FundingInfo { fee_details, .. } ==> wf_fee_details(
            fee_details,
        )),
    ensures
        r == spec_bootstrap_step(*config, phase, event),
{
    match (phase, event) {
        (BootstrapPhase::Init, BootstrapEvent::NonceIs { nonce }) => Ok(
            (
                BootstrapPhase::NonceFetched { nonce },
                BootstrapAction::ObtainCredential { mock: config.skip_ra, nonce },
            ),
        ),
        (
            BootstrapPhase::NonceFetched { nonce },
            BootstrapEvent::CredentialReady { extrinsic: _ },
        ) => Ok((BootstrapPhase::CredentialObtained { nonce }, BootstrapAction::FetchFundingInfo)),
        (
            BootstrapPhase::CredentialObtained { nonce },
            BootstrapEvent::FundingInfo {
                free_balance,
                fee_details,
                existential_deposit,
                faucet_free,
                extrinsic,
            },
        ) => {
            match account_funding(
                config.dev,
                free_balance,
                &fee_details,
                existential_deposit,
                faucet_free,
            ) {
                Ok(top_up) => Ok(
                    (
                        BootstrapPhase::CredentialObtained { nonce },
                        BootstrapAction::SubmitRegistration { top_up, extrinsic },
                    ),
                ),
                Err(e) => Err(e),
            }
        },
        (
            BootstrapPhase::CredentialObtained { nonce: _ },
            BootstrapEvent::ExtrinsicFinalized { header },
        ) => Ok(
            (
                BootstrapPhase::Registered { header },
                BootstrapAction::QueryEnclaveCountAtParent { parent_hash: header.parent_hash },
            ),
        ),
        (
            BootstrapPhase::Registered { header },
            BootstrapEvent::EnclaveCountAtParent { count },
        ) => Ok(
            (
                BootstrapPhase::Complete {
                    handle: RegisteredHandle { primary: count == 0, header },
                },
                BootstrapAction::Done,
            ),
        ),
        _ => Err(BootstrapError::UnexpectedEvent),
    }
}

} // verus!
