use medas_computing_contract::msg::{Coin, InstantiateMsg, PricingEntry, PricingTier, ServiceCapability};
use medas_computing_contract::state::MarketState;
use medas_computing_contract::ContractError;

fn init_msg() -> InstantiateMsg {
    InstantiateMsg {
        community_pool: "medas1community...".to_string(),
        community_fee_percent: 15,
        default_job_timeout: 100000,
        heartbeat_timeout: 180,
    }
}

fn pi_capability() -> ServiceCapability {
    ServiceCapability {
        service_type: "pi_calculation".to_string(),
        max_complexity: 100000,
        avg_completion_time: 180,
    }
}

fn pi_pricing(base_price: u128) -> Vec<PricingEntry> {
    vec![PricingEntry {
        service_type: "pi_calculation".to_string(),
        tier: PricingTier { base_price, unit: "digit".to_string() },
    }]
}

fn umedas(amount: u128) -> Vec<Coin> {
    vec![Coin { denom: "umedas".to_string(), amount }]
}

#[test]
fn test_instantiate() {
    let state = MarketState::instantiate("creator".to_string(), init_msg()).unwrap();

    let config = state.get_config();
    assert_eq!(config.community_fee_percent, 15);
    assert_eq!(config.community_pool, "medas1community...");
}

#[test]
fn test_register_provider() {
    let mut state = MarketState::instantiate("creator".to_string(), init_msg()).unwrap();

    let res = state.register_provider(
        "provider1".to_string(),
        "Test Provider".to_string(),
        vec![pi_capability()],
        pi_pricing(10_000_000_000_000_000),
        "https://test.com".to_string(),
        0,
    );

    assert!(res.is_ok());
    let provider = state.get_provider(&"provider1".to_string()).unwrap();
    assert_eq!(provider.name, "Test Provider");
}

#[test]
fn test_submit_and_complete_job() {
    let mut state = MarketState::instantiate("creator".to_string(), init_msg()).unwrap();

    state
        .register_provider(
            "provider1".to_string(),
            "Test Provider".to_string(),
            vec![pi_capability()],
            pi_pricing(10_000_000_000_000_000),
            "https://test.com".to_string(),
            0,
        )
        .unwrap();

    let job_id = state
        .submit_job(
            "client1".to_string(),
            "provider1".to_string(),
            "pi_calculation".to_string(),
            r#"{"digits":10000}"#.to_string(),
            umedas(1_000_000),
            0,
        )
        .unwrap();

    let transfers = state
        .complete_job(
            &"provider1".to_string(),
            job_id,
            "abc123".to_string(),
            "https://test.com/result".to_string(),
            10,
        )
        .unwrap();

    // community fee + provider payment
    assert_eq!(transfers.len(), 2);
}

#[test]
fn test_query_providers() {
    let mut state = MarketState::instantiate("creator".to_string(), init_msg()).unwrap();

    state
        .register_provider(
            "provider1".to_string(),
            "Test Provider".to_string(),
            vec![pi_capability()],
            pi_pricing(10_000_000_000_000_000),
            "https://test.com".to_string(),
            0,
        )
        .unwrap();

    let res = state.list_providers(None, None);
    println!("Providers response: {:?}", res.providers.len());
    assert_eq!(res.providers.len(), 1);
}

#[test]
fn test_complete_workflow() {
    // 1. Instantiate
    let mut state = MarketState::instantiate("creator".to_string(), init_msg()).unwrap();

    // 2. Provider registers itself
    state
        .register_provider(
            "provider".to_string(),
            "Berlin Node".to_string(),
            vec![pi_capability()],
            pi_pricing(100_000_000_000_000),
            "https://berlin.test".to_string(),
            0,
        )
        .unwrap();

    // 3. Client submits a job
    let job_id = state
        .submit_job(
            "client".to_string(),
            "provider".to_string(),
            "pi_calculation".to_string(),
            r#"{"digits":10000}"#.to_string(),
            umedas(1_000_000),
            0,
        )
        .unwrap();

    // 4. Provider completes the job
    let transfers = state
        .complete_job(
            &"provider".to_string(),
            job_id,
            "test123".to_string(),
            "https://result.test".to_string(),
            60,
        )
        .unwrap();

    assert_eq!(transfers.len(), 2);
}

#[test]
fn test_unauthorized_completion() {
    let mut state = MarketState::instantiate("creator".to_string(), init_msg()).unwrap();

    state
        .register_provider(
            "provider".to_string(),
            "Provider".to_string(),
            vec![pi_capability()],
            pi_pricing(10_000_000_000_000_000),
            "https://test.com".to_string(),
            0,
        )
        .unwrap();

    let job_id = state
        .submit_job(
            "client".to_string(),
            "provider".to_string(),
            "pi_calculation".to_string(),
            "{}".to_string(),
            umedas(1_000_000),
            0,
        )
        .unwrap();

    let err = state
        .complete_job(
            &"wrong_provider".to_string(),
            job_id,
            "test".to_string(),
            "test".to_string(),
            10,
        )
        .unwrap_err();

    assert!(matches!(err, ContractError::Unauthorized));
}
