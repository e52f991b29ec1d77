use medas_computing_contract::msg::{Coin, InstantiateMsg, MigrateMsg, PricingEntry, PricingTier, ServiceCapability};
use medas_computing_contract::state::MarketState;
use medas_computing_contract::ContractError;

fn msg() -> InstantiateMsg {
    InstantiateMsg {
        community_pool: "pool".to_string(),
        community_fee_percent: 15,
        default_job_timeout: 600,
        heartbeat_timeout: 300,
    }
}

fn setup() -> MarketState {
    MarketState::instantiate("admin".to_string(), msg()).unwrap()
}

fn capability() -> ServiceCapability {
    ServiceCapability {
        service_type: "compute".to_string(),
        max_complexity: 1000,
        avg_completion_time: 60,
    }
}

fn pricing() -> Vec<PricingEntry> {
    vec![PricingEntry {
        service_type: "compute".to_string(),
        tier: PricingTier { base_price: 1, unit: "unit".to_string() },
    }]
}

fn register(state: &mut MarketState, addr: &str) {
    state
        .register_provider(
            addr.to_string(),
            "node".to_string(),
            vec![capability()],
            pricing(),
            "https://node.example".to_string(),
            0,
        )
        .unwrap();
}

fn umedas(amount: u128) -> Vec<Coin> {
    vec![Coin { denom: "umedas".to_string(), amount }]
}

#[test]
fn fee_percent_above_hundred_is_rejected() {
    let over = InstantiateMsg { community_fee_percent: 101, ..msg() };
    let err = MarketState::instantiate("admin".to_string(), over).unwrap_err();
    assert!(matches!(err, ContractError::InvalidConfig));
}

#[test]
fn duplicate_registration_is_rejected() {
    let mut state = setup();
    register(&mut state, "prov");
    let err = state
        .register_provider(
            "prov".to_string(),
            "other".to_string(),
            vec![capability()],
            pricing(),
            "https://other.example".to_string(),
            0,
        )
        .unwrap_err();
    assert!(matches!(err, ContractError::ProviderAlreadyRegistered));
}

#[test]
fn empty_registration_fields_are_rejected() {
    let mut state = setup();
    let err = state
        .register_provider(
            "prov".to_string(),
            "".to_string(),
            vec![capability()],
            pricing(),
            "https://node.example".to_string(),
            0,
        )
        .unwrap_err();
    assert!(matches!(err, ContractError::InvalidProviderData));

    let err = state
        .register_provider(
            "prov".to_string(),
            "node".to_string(),
            vec![],
            pricing(),
            "https://node.example".to_string(),
            0,
        )
        .unwrap_err();
    assert!(matches!(err, ContractError::InvalidProviderData));
}

#[test]
fn submit_requires_known_active_provider() {
    let mut state = setup();
    let err = state
        .submit_job(
            "client".to_string(),
            "ghost".to_string(),
            "compute".to_string(),
            "{}".to_string(),
            umedas(100),
            0,
        )
        .unwrap_err();
    assert!(matches!(err, ContractError::ProviderNotFound));

    register(&mut state, "prov");
    state
        .update_provider_status(&"prov".to_string(), false)
        .unwrap();
    let err = state
        .submit_job(
            "client".to_string(),
            "prov".to_string(),
            "compute".to_string(),
            "{}".to_string(),
            umedas(100),
            0,
        )
        .unwrap_err();
    assert!(matches!(err, ContractError::ProviderNotActive));
}

#[test]
fn submit_requires_payment() {
    let mut state = setup();
    register(&mut state, "prov");

    let none = state
        .submit_job(
            "client".to_string(),
            "prov".to_string(),
            "compute".to_string(),
            "{}".to_string(),
            vec![],
            0,
        )
        .unwrap_err();
    assert!(matches!(none, ContractError::NoPayment));

    let wrong_denom = state
        .submit_job(
            "client".to_string(),
            "prov".to_string(),
            "compute".to_string(),
            "{}".to_string(),
            vec![Coin { denom: "uatom".to_string(), amount: 100 }],
            0,
        )
        .unwrap_err();
    assert!(matches!(wrong_denom, ContractError::NoPayment));

    let zero = state
        .submit_job(
            "client".to_string(),
            "prov".to_string(),
            "compute".to_string(),
            "{}".to_string(),
            umedas(0),
            0,
        )
        .unwrap_err();
    assert!(matches!(zero, ContractError::NoPayment));
}

#[test]
fn unknown_job_and_wrong_callers_are_rejected() {
    let mut state = setup();
    register(&mut state, "prov");
    let id = state
        .submit_job(
            "client".to_string(),
            "prov".to_string(),
            "compute".to_string(),
            "{}".to_string(),
            umedas(100),
            0,
        )
        .unwrap();

    let missing = state
        .complete_job(&"prov".to_string(), 99, "h".to_string(), "u".to_string(), 1)
        .unwrap_err();
    assert!(matches!(missing, ContractError::JobNotFound));
    assert!(matches!(state.get_job(99).unwrap_err(), ContractError::JobNotFound));

    let not_provider = state
        .fail_job(&"client".to_string(), id, "r".to_string(), 1)
        .unwrap_err();
    assert!(matches!(not_provider, ContractError::Unauthorized));

    let not_client = state.cancel_job(&"prov".to_string(), id, 1).unwrap_err();
    assert!(matches!(not_client, ContractError::Unauthorized));
}

#[test]
fn heartbeat_requires_registration() {
    let mut state = setup();
    let err = state.heartbeat(&"ghost".to_string(), 1).unwrap_err();
    assert!(matches!(err, ContractError::ProviderNotFound));
    let err = state
        .update_provider(&"ghost".to_string(), None, None, None, Some(5))
        .unwrap_err();
    assert!(matches!(err, ContractError::ProviderNotFound));
    let err = state
        .update_provider_status(&"ghost".to_string(), true)
        .unwrap_err();
    assert!(matches!(err, ContractError::ProviderNotFound));
}

#[test]
fn update_provider_overwrites_only_supplied_fields() {
    let mut state = setup();
    register(&mut state, "prov");
    state
        .update_provider(
            &"prov".to_string(),
            Some("renamed".to_string()),
            None,
            None,
            Some(25),
        )
        .unwrap();
    let p = state.get_provider(&"prov".to_string()).unwrap();
    assert_eq!(p.name, "renamed");
    assert_eq!(p.capacity, 25);
    assert_eq!(p.endpoint, "https://node.example");
}

#[test]
fn pause_gates_mutations_and_unpause_lifts_it() {
    let mut state = setup();
    register(&mut state, "prov");
    state.pause(&"admin".to_string()).unwrap();

    let err = state
        .submit_job(
            "client".to_string(),
            "prov".to_string(),
            "compute".to_string(),
            "{}".to_string(),
            umedas(100),
            0,
        )
        .unwrap_err();
    assert!(matches!(err, ContractError::ContractPaused));
    let err = state.heartbeat(&"prov".to_string(), 1).unwrap_err();
    assert!(matches!(err, ContractError::ContractPaused));
    let err = state.sweep_timeouts(10).unwrap_err();
    assert!(matches!(err, ContractError::ContractPaused));
    let err = state.sweep_inactive(10).unwrap_err();
    assert!(matches!(err, ContractError::ContractPaused));
    let err = state.pause(&"admin".to_string()).unwrap_err();
    assert!(matches!(err, ContractError::ContractPaused));

    // queries stay available while paused
    assert!(state.get_provider(&"prov".to_string()).is_ok());

    state.unpause(&"admin".to_string()).unwrap();
    assert!(state.heartbeat(&"prov".to_string(), 1).is_ok());
}

#[test]
fn admin_gating_of_config_and_pause() {
    let mut state = setup();
    let err = state.pause(&"mallory".to_string()).unwrap_err();
    assert!(matches!(err, ContractError::Unauthorized));
    let err = state.unpause(&"mallory".to_string()).unwrap_err();
    assert!(matches!(err, ContractError::Unauthorized));
    let err = state
        .update_config(&"mallory".to_string(), Some(10), None)
        .unwrap_err();
    assert!(matches!(err, ContractError::Unauthorized));

    state
        .update_config(&"admin".to_string(), Some(10), Some(20))
        .unwrap();
    assert_eq!(state.config.default_job_timeout, 10);
    assert_eq!(state.config.heartbeat_timeout, 20);
}

#[test]
fn migrate_overrides_timeouts() {
    let mut state = setup();
    state.migrate(MigrateMsg { default_job_timeout: Some(42), heartbeat_timeout: None });
    assert_eq!(state.config.default_job_timeout, 42);
    assert_eq!(state.config.heartbeat_timeout, 300);
}

#[test]
fn error_messages_name_each_variant() {
    assert_eq!(ContractError::Unauthorized.message(), "Unauthorized");
    assert_eq!(ContractError::JobNotFound.message(), "Job not found");
    assert_eq!(
        ContractError::ProviderAlreadyRegistered.message(),
        "Provider already registered"
    );
    assert_eq!(ContractError::ContractPaused.message(), "Contract is paused");
}
