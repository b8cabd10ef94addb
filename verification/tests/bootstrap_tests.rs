use tee_worker::bootstrap::{
    account_funding, bootstrap_funds_from_alice, bootstrap_initial_action, bootstrap_step,
    enclave_registration_fees, ensure_account_has_funds, primary_validateer, BootstrapAction,
    BootstrapConfig, BootstrapError, BootstrapEvent, BootstrapPhase, FeeDetails, InclusionFee,
    EXISTENTIAL_DEPOSIT_FACTOR_FOR_INIT_FUNDS, REGISTERING_FEE_FACTOR_FOR_INIT_FUNDS,
};
use tee_worker::sync::Header;

fn fee_details(base: u128, len: u128, weight: u128) -> Option<FeeDetails> {
    Some(FeeDetails {
        inclusion_fee: Some(InclusionFee {
            base_fee: base,
            len_fee: len,
            adjusted_weight_fee: weight,
        }),
    })
}

#[test]
fn registration_fees_sum_the_inclusion_fee() {
    assert_eq!(enclave_registration_fees(&fee_details(10, 20, 30)).unwrap(), 60);
}

#[test]
fn registration_fees_require_details() {
    assert_eq!(
        enclave_registration_fees(&None).unwrap_err(),
        BootstrapError::MissingFeeDetails
    );
    assert_eq!(
        enclave_registration_fees(&Some(FeeDetails { inclusion_fee: None })).unwrap_err(),
        BootstrapError::MissingInclusionFee
    );
}

#[test]
fn dev_funding_tops_up_to_the_floor() {
    // Floor: existential deposit times its factor.
    let ed = 5u128;
    let floor = ed * EXISTENTIAL_DEPOSIT_FACTOR_FOR_INIT_FUNDS;
    assert_eq!(ensure_account_has_funds(0, ed), floor);
    assert_eq!(ensure_account_has_funds(floor - 1, ed), 1);
    assert_eq!(ensure_account_has_funds(floor, ed), 0);
    assert_eq!(ensure_account_has_funds(floor + 7, ed), 0);
}

#[test]
fn faucet_refuses_what_it_cannot_cover() {
    assert_eq!(bootstrap_funds_from_alice(100, 99).unwrap_err(), BootstrapError::ApplicationSetup);
    assert_eq!(bootstrap_funds_from_alice(100, 100).unwrap(), 100);
}

#[test]
fn production_funding_demands_the_fee_floor() {
    // Below fees times the registering factor, bootstrap aborts with the
    // missing amount and no automatic funding happens.
    let fees = 60u128;
    let floor = fees * REGISTERING_FEE_FACTOR_FOR_INIT_FUNDS;
    let r = account_funding(false, floor - 25, &fee_details(10, 20, 30), 1, 1_000_000);
    assert_eq!(r.unwrap_err(), BootstrapError::InsufficientFunds(25));

    let ok = account_funding(false, floor, &fee_details(10, 20, 30), 1, 0);
    assert_eq!(ok.unwrap(), 0);
}

#[test]
fn dev_funding_goes_through_the_faucet() {
    let ed = 2u128;
    let floor = ed * EXISTENTIAL_DEPOSIT_FACTOR_FOR_INIT_FUNDS;
    let r = account_funding(true, 0, &None, ed, floor);
    assert_eq!(r.unwrap(), floor);

    let refused = account_funding(true, 0, &None, ed, floor - 1);
    assert_eq!(refused.unwrap_err(), BootstrapError::ApplicationSetup);
}

#[test]
fn primary_validateer_means_zero_prior_enclaves() {
    assert!(primary_validateer(0));
    assert!(!primary_validateer(1));
    assert!(!primary_validateer(7));
}

fn registration_header() -> Header {
    Header { number: 12, parent_hash: [3u8; 32], hash: [4u8; 32] }
}

fn run_to_registered(config: &BootstrapConfig, funding_free: u128) -> Result<(BootstrapPhase, BootstrapAction), BootstrapError> {
    let action = bootstrap_initial_action();
    assert!(matches!(action, BootstrapAction::FetchNonce));

    let (phase, action) =
        bootstrap_step(config, BootstrapPhase::Init, BootstrapEvent::NonceIs { nonce: 0 })
            .unwrap();
    assert!(matches!(action, BootstrapAction::ObtainCredential { .. }));

    let (phase, action) = bootstrap_step(
        config,
        phase,
        BootstrapEvent::CredentialReady { extrinsic: vec![0xaa, 0xbb] },
    )
    .unwrap();
    assert!(matches!(action, BootstrapAction::FetchFundingInfo));

    bootstrap_step(
        config,
        phase,
        BootstrapEvent::FundingInfo {
            free_balance: funding_free,
            fee_details: fee_details(10, 20, 30),
            existential_deposit: 1,
            faucet_free: 0,
            extrinsic: vec![0xaa, 0xbb],
        },
    )
}

#[test]
fn production_bootstrap_aborts_unfunded_without_submitting() {
    // With a free balance below the fee floor the registration extrinsic is
    // never submitted: the run aborts at the funding step.
    let config = BootstrapConfig { skip_ra: false, dev: false };
    let r = run_to_registered(&config, 0);
    assert_eq!(r.unwrap_err(), BootstrapError::InsufficientFunds(600));
}

fn complete_bootstrap(config: &BootstrapConfig, count_at_parent: u64) -> tee_worker::bootstrap::RegisteredHandle {
    let fees_floor = 60 * REGISTERING_FEE_FACTOR_FOR_INIT_FUNDS;
    let (phase, action) = run_to_registered(config, fees_floor).unwrap();
    let (top_up, extrinsic) = match action {
        BootstrapAction::SubmitRegistration { top_up, extrinsic } => (top_up, extrinsic),
        _ => panic!("expected a submission"),
    };
    assert_eq!(top_up, 0);
    assert_eq!(extrinsic, vec![0xaa, 0xbb]);

    let (phase, action) = bootstrap_step(
        config,
        phase,
        BootstrapEvent::ExtrinsicFinalized { header: registration_header() },
    )
    .unwrap();
    match action {
        BootstrapAction::QueryEnclaveCountAtParent { parent_hash } => {
            assert_eq!(parent_hash, [3u8; 32]);
        },
        _ => panic!("expected an enclave-count query"),
    }

    let (phase, action) = bootstrap_step(
        config,
        phase,
        BootstrapEvent::EnclaveCountAtParent { count: count_at_parent },
    )
    .unwrap();
    assert!(matches!(action, BootstrapAction::Done));
    match phase {
        BootstrapPhase::Complete { handle } => handle,
        _ => panic!("expected completion"),
    }
}

#[test]
fn first_registrant_is_primary_second_is_secondary() {
    // Two enclaves bootstrap against a chain with no prior enclave: the
    // first to finalize sees count zero and is primary; the second sees a
    // count of one and is secondary.
    let config = BootstrapConfig { skip_ra: false, dev: false };
    let first = complete_bootstrap(&config, 0);
    assert!(first.is_primary());
    assert_eq!(first.registration_header(), registration_header());

    let second = complete_bootstrap(&config, 1);
    assert!(!second.is_primary());
}

#[test]
fn skipping_attestation_is_an_explicit_mock_credential() {
    let config = BootstrapConfig { skip_ra: true, dev: true };
    let (_, action) =
        bootstrap_step(&config, BootstrapPhase::Init, BootstrapEvent::NonceIs { nonce: 3 })
            .unwrap();
    match action {
        BootstrapAction::ObtainCredential { mock, nonce } => {
            assert!(mock);
            assert_eq!(nonce, 3);
        },
        _ => panic!("expected a credential request"),
    }
}

#[test]
fn out_of_phase_events_are_refused() {
    let config = BootstrapConfig { skip_ra: false, dev: false };
    let r = bootstrap_step(
        &config,
        BootstrapPhase::Init,
        BootstrapEvent::EnclaveCountAtParent { count: 0 },
    );
    assert_eq!(r.unwrap_err(), BootstrapError::UnexpectedEvent);
}
