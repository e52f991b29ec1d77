use medas_computing_contract::msg::{Coin, InstantiateMsg, PricingEntry, PricingTier, ServiceCapability};
use medas_computing_contract::state::{JobStatus, MarketState};
use medas_computing_contract::ContractError;

fn msg_with(fee: u64, job_timeout: u64, hb_timeout: u64) -> InstantiateMsg {
    InstantiateMsg {
        community_pool: "pool".to_string(),
        community_fee_percent: fee,
        default_job_timeout: job_timeout,
        heartbeat_timeout: hb_timeout,
    }
}

fn capability() -> ServiceCapability {
    ServiceCapability {
        service_type: "compute".to_string(),
        max_complexity: 1000,
        avg_completion_time: 60,
    }
}

fn pricing() -> Vec<PricingEntry> {
    vec![PricingEntry {
        service_type: "compute".to_string(),
        tier: PricingTier { base_price: 1, unit: "unit".to_string() },
    }]
}

fn umedas(amount: u128) -> Vec<Coin> {
    vec![Coin { denom: "umedas".to_string(), amount }]
}

fn register(state: &mut MarketState, addr: &str, now: u64) {
    state
        .register_provider(
            addr.to_string(),
            format!("node {}", addr),
            vec![capability()],
            pricing(),
            format!("https://{}.example", addr),
            now,
        )
        .unwrap();
}

fn submit(state: &mut MarketState, client: &str, provider: &str, amount: u128, now: u64) -> u64 {
    state
        .submit_job(
            client.to_string(),
            provider.to_string(),
            "compute".to_string(),
            "{}".to_string(),
            umedas(amount),
            now,
        )
        .unwrap()
}

#[test]
fn fresh_registration_defaults() {
    // Every valid registration starts active with reputation 50 and no load.
    let mut state = MarketState::instantiate("admin".to_string(), msg_with(15, 600, 300)).unwrap();
    register(&mut state, "prov", 7);

    let p = state.get_provider(&"prov".to_string()).unwrap();
    assert!(p.active);
    assert_eq!(p.reputation, 50);
    assert_eq!(p.active_jobs, 0);
    assert_eq!(p.capacity, 10);
    assert_eq!(p.total_completed, 0);
    assert_eq!(p.registered_at, 7);
}

#[test]
fn deadline_fixed_at_submission() {
    // deadline == created_at + default_job_timeout, and a later config change
    // does not move it.
    let mut state = MarketState::instantiate("admin".to_string(), msg_with(15, 600, 300)).unwrap();
    register(&mut state, "prov", 0);
    submit(&mut state, "client", "prov", 1000, 100);

    assert_eq!(state.jobs[0].created_at, 100);
    assert_eq!(state.jobs[0].deadline, 700);
    assert!(state.jobs[0].deadline > state.jobs[0].created_at);

    state
        .update_config(&"admin".to_string(), Some(5000), None)
        .unwrap();
    assert_eq!(state.jobs[0].deadline, 700);
}

#[test]
fn fee_split_scenario() {
    // fee 15% of 1,000,000: community 150,000, provider 850,000, two
    // transfers, recomposing the payment exactly.
    let mut state = MarketState::instantiate("admin".to_string(), msg_with(15, 600, 300)).unwrap();
    register(&mut state, "prov", 0);
    let job_id = submit(&mut state, "client", "prov", 1_000_000, 0);

    let transfers = state
        .complete_job(&"prov".to_string(), job_id, "h".to_string(), "u".to_string(), 10)
        .unwrap();

    assert_eq!(transfers.len(), 2);
    assert_eq!(transfers[0].to_address, "pool");
    assert_eq!(transfers[0].amount, 150_000);
    assert_eq!(transfers[1].to_address, "prov");
    assert_eq!(transfers[1].amount, 850_000);
    assert_eq!(transfers[0].amount + transfers[1].amount, 1_000_000);
}

#[test]
fn zero_fee_emits_single_transfer() {
    let mut state = MarketState::instantiate("admin".to_string(), msg_with(0, 600, 300)).unwrap();
    register(&mut state, "prov", 0);
    let job_id = submit(&mut state, "client", "prov", 999, 0);

    let transfers = state
        .complete_job(&"prov".to_string(), job_id, "h".to_string(), "u".to_string(), 10)
        .unwrap();

    assert_eq!(transfers.len(), 1);
    assert_eq!(transfers[0].to_address, "prov");
    assert_eq!(transfers[0].amount, 999);
}

#[test]
fn terminal_state_rejects_transitions() {
    // Once a job is terminal, every further transition fails with the
    // invalid-state error.
    let mut state = MarketState::instantiate("admin".to_string(), msg_with(15, 600, 300)).unwrap();
    register(&mut state, "prov", 0);
    let job_id = submit(&mut state, "client", "prov", 1000, 0);

    state
        .complete_job(&"prov".to_string(), job_id, "h".to_string(), "u".to_string(), 5)
        .unwrap();

    let again = state
        .complete_job(&"prov".to_string(), job_id, "h".to_string(), "u".to_string(), 6)
        .unwrap_err();
    assert!(matches!(again, ContractError::InvalidJobState));

    let fail = state
        .fail_job(&"prov".to_string(), job_id, "late".to_string(), 6)
        .unwrap_err();
    assert!(matches!(fail, ContractError::InvalidJobState));

    let cancel = state.cancel_job(&"client".to_string(), job_id, 6).unwrap_err();
    assert!(matches!(cancel, ContractError::InvalidJobState));
}

#[test]
fn sweep_timeouts_scenario_and_idempotence() {
    // Submitted at t=0 with timeout 600: a sweep at t=601 fails the job and
    // refunds the full payment; a sweep at t=700 does nothing further.
    let mut state = MarketState::instantiate("admin".to_string(), msg_with(15, 600, 300)).unwrap();
    register(&mut state, "prov", 0);
    let job_id = submit(&mut state, "client", "prov", 2500, 0);

    let (ids, refunds) = state.sweep_timeouts(601).unwrap();
    assert_eq!(ids, vec![job_id]);
    assert_eq!(refunds.len(), 1);
    assert_eq!(refunds[0].to_address, "client");
    assert_eq!(refunds[0].amount, 2500);
    assert_eq!(state.jobs[0].status, JobStatus::Failed);

    let p = state.get_provider(&"prov".to_string()).unwrap();
    assert_eq!(p.active_jobs, 0);

    let (ids2, refunds2) = state.sweep_timeouts(700).unwrap();
    assert!(ids2.is_empty());
    assert!(refunds2.is_empty());
    let p2 = state.get_provider(&"prov".to_string()).unwrap();
    assert_eq!(p2.active_jobs, p.active_jobs);
    assert_eq!(p2.reputation, p.reputation);
}

#[test]
fn sweep_timeouts_skips_unexpired_jobs() {
    let mut state = MarketState::instantiate("admin".to_string(), msg_with(15, 600, 300)).unwrap();
    register(&mut state, "prov", 0);
    let job_id = submit(&mut state, "client", "prov", 2500, 0);

    // exactly at the deadline nothing happens: only strictly past it counts
    let (ids, _) = state.sweep_timeouts(600).unwrap();
    assert!(ids.is_empty());
    assert_eq!(state.jobs[0].status, JobStatus::Submitted);

    let (ids, _) = state.sweep_timeouts(601).unwrap();
    assert_eq!(ids, vec![job_id]);
}

#[test]
fn cancel_window_boundaries() {
    // The window is 300 seconds: elapsed 299 and exactly 300 succeed,
    // 301 fails with the window-expired error.
    let mut state = MarketState::instantiate("admin".to_string(), msg_with(15, 9000, 300)).unwrap();
    register(&mut state, "prov", 0);
    let j1 = submit(&mut state, "client", "prov", 100, 1000);
    let j2 = submit(&mut state, "client", "prov", 100, 1000);
    let j3 = submit(&mut state, "client", "prov", 100, 1000);

    assert!(state.cancel_job(&"client".to_string(), j1, 1000 + 299).is_ok());
    assert!(state.cancel_job(&"client".to_string(), j2, 1000 + 300).is_ok());
    let err = state
        .cancel_job(&"client".to_string(), j3, 1000 + 301)
        .unwrap_err();
    assert!(matches!(err, ContractError::CancelWindowExpired));
}

#[test]
fn reputation_recomputed_on_failure() {
    // 3 completed + 1 failed: the failing transition recomputes 100*3/4 = 75.
    let mut state = MarketState::instantiate("admin".to_string(), msg_with(15, 600, 300)).unwrap();
    register(&mut state, "prov", 0);
    for _ in 0..3 {
        let id = submit(&mut state, "client", "prov", 1000, 0);
        state
            .complete_job(&"prov".to_string(), id, "h".to_string(), "u".to_string(), 5)
            .unwrap();
    }
    let id = submit(&mut state, "client", "prov", 1000, 0);
    state.fail_job(&"prov".to_string(), id, "broke".to_string(), 6).unwrap();

    let p = state.get_provider(&"prov".to_string()).unwrap();
    assert_eq!(p.total_completed, 3);
    assert_eq!(p.reputation, 75);
}

#[test]
fn reputation_untouched_by_completions() {
    // Completions do not recompute reputation: after three successes the
    // score still reads the registration default, and only a failure
    // refreshes it.
    let mut state = MarketState::instantiate("admin".to_string(), msg_with(15, 600, 300)).unwrap();
    register(&mut state, "prov", 0);
    for _ in 0..3 {
        let id = submit(&mut state, "client", "prov", 1000, 0);
        state
            .complete_job(&"prov".to_string(), id, "h".to_string(), "u".to_string(), 5)
            .unwrap();
    }
    let p = state.get_provider(&"prov".to_string()).unwrap();
    assert_eq!(p.reputation, 50);

    let id = submit(&mut state, "client", "prov", 1000, 0);
    state.fail_job(&"prov".to_string(), id, "broke".to_string(), 6).unwrap();
    let p = state.get_provider(&"prov".to_string()).unwrap();
    assert_eq!(p.reputation, 75);
}

#[test]
fn provider_pagination() {
    // Three providers, limit 2: first page is the two smallest addresses in
    // ascending order; the cursor set to the last of them yields the rest.
    let mut state = MarketState::instantiate("admin".to_string(), msg_with(15, 600, 300)).unwrap();
    register(&mut state, "medas1c", 0);
    register(&mut state, "medas1a", 0);
    register(&mut state, "medas1b", 0);

    let page1 = state.list_providers(None, Some(2));
    assert_eq!(page1.providers.len(), 2);
    assert_eq!(page1.providers[0].address, "medas1a");
    assert_eq!(page1.providers[1].address, "medas1b");

    let cursor = page1.providers[1].address.clone();
    let page2 = state.list_providers(Some(cursor), Some(2));
    assert_eq!(page2.providers.len(), 1);
    assert_eq!(page2.providers[0].address, "medas1c");
}

#[test]
fn job_pagination_by_provider_and_client() {
    let mut state = MarketState::instantiate("admin".to_string(), msg_with(15, 600, 300)).unwrap();
    register(&mut state, "prov", 0);
    let j1 = submit(&mut state, "client", "prov", 100, 0);
    let j2 = submit(&mut state, "client", "prov", 100, 0);
    let j3 = submit(&mut state, "other", "prov", 100, 0);

    let page = state.list_jobs_by_provider("prov".to_string(), None, Some(2));
    assert_eq!(page.jobs.len(), 2);
    assert_eq!(page.jobs[0].id, j1);
    assert_eq!(page.jobs[1].id, j2);

    let rest = state.list_jobs_by_provider("prov".to_string(), Some(j2), Some(10));
    assert_eq!(rest.jobs.len(), 1);
    assert_eq!(rest.jobs[0].id, j3);

    let mine = state.list_jobs_by_client("client".to_string(), None, None);
    assert_eq!(mine.jobs.len(), 2);
    let theirs = state.list_jobs_by_client("other".to_string(), None, None);
    assert_eq!(theirs.jobs.len(), 1);
    assert_eq!(theirs.jobs[0].client, "other");
}

#[test]
fn sweep_inactive_deactivates_and_heartbeat_revives() {
    // heartbeat timeout 300: a provider silent for longer is deactivated;
    // a second sweep at the same time reports nothing; a heartbeat
    // re-activates unconditionally.
    let mut state = MarketState::instantiate("admin".to_string(), msg_with(15, 600, 300)).unwrap();
    register(&mut state, "prov", 100);

    let silent = state.sweep_inactive(400).unwrap();
    assert!(silent.is_empty());

    let dropped = state.sweep_inactive(401).unwrap();
    assert_eq!(dropped, vec!["prov".to_string()]);
    assert!(!state.get_provider(&"prov".to_string()).unwrap().active);

    let again = state.sweep_inactive(401).unwrap();
    assert!(again.is_empty());

    state.heartbeat(&"prov".to_string(), 500).unwrap();
    let p = state.get_provider(&"prov".to_string()).unwrap();
    assert!(p.active);
}

#[test]
fn completion_accepted_from_processing() {
    // Completion is valid from either Submitted or Processing.
    let mut state = MarketState::instantiate("admin".to_string(), msg_with(10, 600, 300)).unwrap();
    register(&mut state, "prov", 0);
    let id = submit(&mut state, "client", "prov", 1000, 0);
    state.jobs[(id - 1) as usize].status = JobStatus::Processing;

    let transfers = state
        .complete_job(&"prov".to_string(), id, "h".to_string(), "u".to_string(), 5)
        .unwrap();
    assert_eq!(transfers.len(), 2);
    assert_eq!(state.jobs[0].status, JobStatus::Completed);
}

#[test]
fn job_status_labels() {
    assert_eq!(JobStatus::Submitted.to_string(), "submitted");
    assert_eq!(JobStatus::Processing.to_string(), "processing");
    assert_eq!(JobStatus::Completed.to_string(), "completed");
    assert_eq!(JobStatus::Failed.to_string(), "failed");
    assert_eq!(JobStatus::Cancelled.to_string(), "cancelled");
}

#[test]
fn job_query_reflects_resolution() {
    let mut state = MarketState::instantiate("admin".to_string(), msg_with(15, 600, 300)).unwrap();
    register(&mut state, "prov", 0);
    let id = submit(&mut state, "client", "prov", 1234, 50);

    let job = state.get_job(id).unwrap();
    assert_eq!(job.status, "submitted");
    assert_eq!(job.payment_amount, 1234);
    assert_eq!(job.created_at, 50);
    assert!(job.completed_at.is_none());

    state
        .complete_job(&"prov".to_string(), id, "hash".to_string(), "url".to_string(), 99)
        .unwrap();
    let job = state.get_job(id).unwrap();
    assert_eq!(job.status, "completed");
    assert_eq!(job.result_hash.as_deref(), Some("hash"));
    assert_eq!(job.result_url.as_deref(), Some("url"));
    assert_eq!(job.completed_at, Some(99));
}
