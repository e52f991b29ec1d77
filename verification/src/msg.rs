use vstd::prelude::*;

verus! {

/// One kind of work a provider offers.
#[verifier::ext_equal]
#[derive(Debug)]
pub struct ServiceCapability {
    pub service_type: String,
    pub max_complexity: u64,
    pub avg_completion_time: u64,
}

impl Clone for ServiceCapability {
    fn clone(&self) -> (res: Self)
        ensures
            res == *self,
    {
        let res = ServiceCapability {
            service_type: self.service_type.clone(),
            max_complexity: self.max_complexity,
            avg_completion_time: self.avg_completion_time,
        };
        proof {
            assert(res =~= *self);
        }
        res
    }
}

/// The price a provider quotes for one service type. The core stores pricing
/// verbatim and never computes with it; the quoted price is kept in the
/// asset's smallest fixed-point unit.
#[verifier::ext_equal]
#[derive(Debug)]
pub struct PricingTier {
    pub base_price: u128,
    pub unit: String,
}

impl Clone for PricingTier {
    fn clone(&self) -> (res: Self)
        ensures
            res == *self,
    {
        let res = PricingTier { base_price: self.base_price, unit: self.unit.clone() };
        proof {
            assert(res =~= *self);
        }
        res
    }
}

/// One entry of a provider's price list: the tier quoted for one service
/// type.
#[verifier::ext_equal]
#[derive(Debug)]
pub struct PricingEntry {
    pub service_type: String,
    pub tier: PricingTier,
}

impl Clone for PricingEntry {
    fn clone(&self) -> (res: Self)
        ensures
            res == *self,
    {
        let res = PricingEntry {
            service_type: self.service_type.clone(),
            tier: self.tier.clone(),
        };
        proof {
            assert(res =~= *self);
        }
        res
    }
}

/// A payment attached to a request: an amount of one denomination.
#[derive(Clone, Debug)]
pub struct Coin {
    pub denom: String,
    pub amount: u128,
}

/// A funds transfer an operation declares; the hosting environment carries it
/// out after the state change commits. Amounts are in the designated asset.
#[verifier::ext_equal]
#[derive(Clone, Debug)]
pub struct TransferMsg {
    pub to_address: String,
    pub amount: u128,
}

/// What the deployer supplies when the marketplace is created.
#[derive(Clone, Debug)]
pub struct InstantiateMsg {
    pub community_pool: String,
    pub community_fee_percent: u64,
    pub default_job_timeout: u64,
    pub heartbeat_timeout: u64,
}

/// The mutating requests a host dispatches onto the marketplace operations.
#[allow(inconsistent_fields)]
#[derive(Debug)]
pub enum ExecuteMsg {
    RegisterProvider {
        name: String,
        capabilities: Vec<ServiceCapability>,
        pricing: Vec<PricingEntry>,
        endpoint: String,
    },
    SubmitJob { provider: String, job_type: String, parameters: String },
    CompleteJob { job_id: u64, result_hash: String, result_url: String },
    UpdateProviderStatus { active: bool },
    UpdateProvider {
        name: Option<String>,
        endpoint: Option<String>,
        pricing: Option<Vec<PricingEntry>>,
        capacity: Option<u32>,
    },
    HeartBeat {},
    FailJob { job_id: u64, reason: String },
    CancelJob { job_id: u64 },
    ProcessTimedOutJobs {},
    ProcessInactiveProviders {},
    UpdateConfig { default_job_timeout: Option<u64>, heartbeat_timeout: Option<u64> },
    PauseContract {},
    UnpauseContract {},
}

/// The read-only requests a host dispatches onto the queries.
#[allow(inconsistent_fields)]
#[derive(Debug)]
pub enum QueryMsg {
    GetConfig {},
    GetProvider { address: String },
    ListProviders { start_after: Option<String>, limit: Option<u32> },
    GetJob { job_id: u64 },
    ListJobsByProvider { provider: String, start_after: Option<u64>, limit: Option<u32> },
    ListJobsByClient { client: String, start_after: Option<u64>, limit: Option<u32> },
    ListActiveProviders {},
    GetProviderStats { address: String },
}

#[derive(Clone, Debug)]
pub struct ConfigResponse {
    pub community_pool: String,
    pub community_fee_percent: u64,
}

#[verifier::ext_equal]
#[derive(Clone, Debug)]
pub struct ProviderResponse {
    pub address: String,
    pub name: String,
    pub capabilities: Vec<ServiceCapability>,
    pub pricing: Vec<PricingEntry>,
    pub endpoint: String,
    pub capacity: u32,
    pub active_jobs: u32,
    pub total_completed: u64,
    pub reputation: u64,
    pub active: bool,
    pub registered_at: u64,
}

#[derive(Clone, Debug)]
pub struct ProvidersResponse {
    pub providers: Vec<ProviderResponse>,
}

#[verifier::ext_equal]
#[derive(Clone, Debug)]
pub struct JobResponse {
    pub id: u64,
    pub client: String,
    pub provider: String,
    pub job_type: String,
    pub parameters: String,
    pub payment_amount: u128,
    pub status: String,
    pub result_hash: Option<String>,
    pub result_url: Option<String>,
    pub created_at: u64,
    pub completed_at: Option<u64>,
}

#[derive(Clone, Debug)]
pub struct JobsResponse {
    pub jobs: Vec<JobResponse>,
}

/// Configuration overrides applied when a deployed instance is migrated.
#[derive(Clone, Debug)]
pub struct MigrateMsg {
    pub default_job_timeout: Option<u64>,
    pub heartbeat_timeout: Option<u64>,
}

} // verus!
