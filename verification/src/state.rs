use vstd::prelude::*;

use crate::counting::count_where;
use crate::error::ContractError;
use crate::msg::{ConfigResponse, InstantiateMsg, MigrateMsg, PricingEntry, ServiceCapability};
use crate::order::lex_lt;

verus! {

/// Global settings: the admin and community-pool addresses, the community's
/// cut of each completed job, the two timeouts the sweeps compare against,
/// and the emergency pause flag.
#[verifier::ext_equal]
#[derive(Clone, Debug)]
pub struct Config {
    pub admin: String,
    pub community_pool: String,
    pub community_fee_percent: u64,
    pub default_job_timeout: u64,
    pub heartbeat_timeout: u64,
    pub paused: bool,
}

/// Where a job stands in its lifecycle. `Submitted` may move to any other
/// state; `Processing` only to `Completed` or `Failed`; the remaining three
/// are terminal.
#[derive(Clone, Copy, Debug, PartialEq, Eq, Structural)]
pub enum JobStatus {
    Submitted,
    Processing,
    Completed,
    Failed,
    Cancelled,
}

impl JobStatus {
    /// A job in a terminal state admits no further transition.
    pub open spec fn is_terminal(self) -> bool {
        self is Completed || self is Failed || self is Cancelled
    }

    /// A job still counted against its provider's active load.
    pub open spec fn is_open(self) -> bool {
        self is Submitted || self is Processing
    }

    pub open spec fn label(self) -> Seq<char> {
        match self {
            JobStatus::Submitted => "submitted"@,
            JobStatus::Processing => "processing"@,
            JobStatus::Completed => "completed"@,
            JobStatus::Failed => "failed"@,
            JobStatus::Cancelled => "cancelled"@,
        }
    }

    pub fn to_string(&self) -> (r: String)
        ensures
            r@ == self.label(),
    {
        match self {
            JobStatus::Submitted => String::from_str("submitted"),
            JobStatus::Processing => String::from_str("processing"),
            JobStatus::Completed => String::from_str("completed"),
            JobStatus::Failed => String::from_str("failed"),
            JobStatus::Cancelled => String::from_str("cancelled"),
        }
    }
}

/// One registered provider. The three counters and the active-job load are
/// derived views of the job ledger; well-formedness pins each of them to the
/// corresponding count.
#[verifier::ext_equal]
#[derive(Clone, Debug)]
pub struct Provider {
    pub address: String,
    pub name: String,
    pub capabilities: Vec<ServiceCapability>,
    pub pricing: Vec<PricingEntry>,
    pub endpoint: String,
    pub capacity: u32,
    pub active_jobs: u32,
    pub total_completed: u64,
    pub total_failed: u64,
    pub reputation: u64,
    pub active: bool,
    pub registered_at: u64,
    pub last_heartbeat: u64,
}

/// One job. The record itself is the escrow entry: while the status is open,
/// `payment_amount` is held; a terminal transition routes it out.
#[verifier::ext_equal]
#[derive(Clone, Debug)]
pub struct Job {
    pub id: u64,
    pub client: String,
    pub provider: String,
    pub job_type: String,
    pub parameters: String,
    pub payment_amount: u128,
    pub status: JobStatus,
    pub result_hash: Option<String>,
    pub result_url: Option<String>,
    pub created_at: u64,
    pub completed_at: Option<u64>,
    pub deadline: u64,
    pub failure_reason: Option<String>,
}

/// The whole marketplace: configuration, the provider registry ordered
/// strictly by address, and the job ledger keyed by its position (job `id`
/// equals index plus one; ids are sequential from 1 and never reused).
#[derive(Debug)]
pub struct MarketState {
    pub config: Config,
    pub providers: Vec<Provider>,
    pub jobs: Vec<Job>,
    pub next_job_id: u64,
}

/// Jobs of one provider still counted against its load.
pub open spec fn open_job_for(addr: Seq<char>) -> spec_fn(Job) -> bool {
    |j: Job| j.provider@ == addr && j.status.is_open()
}

/// Jobs of one provider that completed.
pub open spec fn completed_job_for(addr: Seq<char>) -> spec_fn(Job) -> bool {
    |j: Job| j.provider@ == addr && j.status is Completed
}

/// Jobs of one provider that failed (explicitly or by timeout).
pub open spec fn failed_job_for(addr: Seq<char>) -> spec_fn(Job) -> bool {
    |j: Job| j.provider@ == addr && j.status is Failed
}

/// Whether some provider record carries this address.
pub open spec fn provider_listed(ps: Seq<Provider>, addr: Seq<char>) -> bool {
    exists|i: int| 0 <= i < ps.len() && ps[i].address@ == addr
}

/// The registry is kept strictly ascending by address, so addresses are
/// unique and listings paginate in address order.
pub open spec fn sorted_by_address(ps: Seq<Provider>) -> bool {
    forall|i: int, j: int|
        0 <= i < j < ps.len() ==> lex_lt(#[trigger] ps[i].address@, #[trigger] ps[j].address@)
}

/// The derived fields of one provider record agree with the job ledger.
pub open spec fn stats_ok(jobs: Seq<Job>, p: Provider) -> bool {
    &&& p.active_jobs == count_where(jobs, open_job_for(p.address@))
    &&& p.total_completed == count_where(jobs, completed_job_for(p.address@))
    &&& p.total_failed == count_where(jobs, failed_job_for(p.address@))
    &&& p.reputation <= 100
}

/// Field discipline of a single job record: escrow is positive, exactly the
/// terminal states carry a completion time, and result and failure fields
/// appear only with the state that sets them.
pub open spec fn job_record_ok(j: Job) -> bool {
    &&& j.payment_amount > 0
    &&& (j.status.is_terminal() <==> j.completed_at is Some)
    &&& (j.result_hash is Some ==> j.status is Completed)
    &&& (j.result_url is Some ==> j.status is Completed)
    &&& (j.failure_reason is Some ==> j.status is Failed)
}

impl MarketState {
    /// The state invariant every operation preserves.
    pub open spec fn wf(self) -> bool {
        &&& self.config.community_fee_percent <= 100
        &&& self.next_job_id == self.jobs@.len() + 1
        &&& forall|k: int|
            0 <= k < self.jobs@.len() ==> (#[trigger] self.jobs@[k]).id == k + 1
        &&& forall|k: int|
            0 <= k < self.jobs@.len() ==> job_record_ok(#[trigger] self.jobs@[k])
        &&& forall|k: int|
            0 <= k < self.jobs@.len() ==> provider_listed(
                self.providers@,
                (#[trigger] self.jobs@[k]).provider@,
            )
        &&& sorted_by_address(self.providers@)
        &&& forall|i: int|
            0 <= i < self.providers@.len() ==> stats_ok(self.jobs@, #[trigger] self.providers@[i])
    }

    /// Create the marketplace. The community fee is a whole percentage and is
    /// rejected above 100; nothing else is constrained.
    pub fn instantiate(admin: String, msg: InstantiateMsg) -> (r: Result<MarketState, ContractError>)
        ensures
            msg.community_fee_percent > 100 ==> r == Err::<MarketState, _>(
                ContractError::InvalidConfig,
            ),
            msg.community_fee_percent <= 100 ==> ({
                &&& r matches Ok(s)
                &&& s.wf()
                &&& s.config == (Config {
                    admin: admin,
                    community_pool: msg.community_pool,
                    community_fee_percent: msg.community_fee_percent,
                    default_job_timeout: msg.default_job_timeout,
                    heartbeat_timeout: msg.heartbeat_timeout,
                    paused: false,
                })
                &&& s.providers@ == Seq::<Provider>::empty()
                &&& s.jobs@ == Seq::<Job>::empty()
                &&& s.next_job_id == 1
            }),
    {
        if msg.community_fee_percent > 100 {
            return Err(ContractError::InvalidConfig);
        }
        let s = MarketState {
            config: Config {
                admin,
                community_pool: msg.community_pool,
                community_fee_percent: msg.community_fee_percent,
                default_job_timeout: msg.default_job_timeout,
                heartbeat_timeout: msg.heartbeat_timeout,
                paused: false,
            },
            providers: Vec::new(),
            jobs: Vec::new(),
            next_job_id: 1,
        };
        proof {
            assert(s.providers@ =~= Seq::<Provider>::empty());
            assert(s.jobs@ =~= Seq::<Job>::empty());
        }
        Ok(s)
    }

    /// Everything but the configuration is untouched.
    pub open spec fn same_records(self, other: MarketState) -> bool {
        &&& self.providers@ == other.providers@
        &&& self.jobs@ == other.jobs@
        &&& self.next_job_id == other.next_job_id
    }

    /// Overwrite only the supplied timeouts. Deadlines of jobs already
    /// submitted are fixed at creation and stay untouched.
    pub fn update_config(
        &mut self,
        sender: &String,
        default_job_timeout: Option<u64>,
        heartbeat_timeout: Option<u64>,
    ) -> (r: Result<(), ContractError>)
        requires
            old(self).wf(),
        ensures
            final(self).wf(),
            old(self).config.paused ==> r == Err::<(), _>(ContractError::ContractPaused)
                && *final(self) == *old(self),
            !old(self).config.paused && sender@ != old(self).config.admin@ ==> r == Err::<(), _>(
                ContractError::Unauthorized,
            ) && *final(self) == *old(self),
            !old(self).config.paused && sender@ == old(self).config.admin@ ==> {
                &&& r == Ok::<(), ContractError>(())
                &&& final(self).config == (Config {
                    default_job_timeout: match default_job_timeout {
                        Some(t) => t,
                        None => old(self).config.default_job_timeout,
                    },
                    heartbeat_timeout: match heartbeat_timeout {
                        Some(t) => t,
                        None => old(self).config.heartbeat_timeout,
                    },
                    ..old(self).config
                })
                &&& final(self).same_records(*old(self))
            },
    {
        if self.config.paused {
            return Err(ContractError::ContractPaused);
        }
        if !(*sender == self.config.admin) {
            return Err(ContractError::Unauthorized);
        }
        if let Some(t) = default_job_timeout {
            self.config.default_job_timeout = t;
        }
        if let Some(t) = heartbeat_timeout {
            self.config.heartbeat_timeout = t;
        }
        Ok(())
    }

    /// Halt every mutating operation but unpause.
    pub fn pause(&mut self, sender: &String) -> (r: Result<(), ContractError>)
        requires
            old(self).wf(),
        ensures
            final(self).wf(),
            old(self).config.paused ==> r == Err::<(), _>(ContractError::ContractPaused)
                && *final(self) == *old(self),
            !old(self).config.paused && sender@ != old(self).config.admin@ ==> r == Err::<(), _>(
                ContractError::Unauthorized,
            ) && *final(self) == *old(self),
            !old(self).config.paused && sender@ == old(self).config.admin@ ==> {
                &&& r == Ok::<(), ContractError>(())
                &&& final(self).config == (Config { paused: true, ..old(self).config })
                &&& final(self).same_records(*old(self))
            },
    {
        if self.config.paused {
            return Err(ContractError::ContractPaused);
        }
        if !(*sender == self.config.admin) {
            return Err(ContractError::Unauthorized);
        }
        self.config.paused = true;
        Ok(())
    }

    /// Resume operations; the only mutating call accepted while paused.
    pub fn unpause(&mut self, sender: &String) -> (r: Result<(), ContractError>)
        requires
            old(self).wf(),
        ensures
            final(self).wf(),
            sender@ != old(self).config.admin@ ==> r == Err::<(), _>(ContractError::Unauthorized)
                && *final(self) == *old(self),
            sender@ == old(self).config.admin@ ==> {
                &&& r == Ok::<(), ContractError>(())
                &&& final(self).config == (Config { paused: false, ..old(self).config })
                &&& final(self).same_records(*old(self))
            },
    {
        if !(*sender == self.config.admin) {
            return Err(ContractError::Unauthorized);
        }
        self.config.paused = false;
        Ok(())
    }

    /// Apply migration overrides to the timeouts; gated by the hosting chain,
    /// not by the admin or the pause flag.
    pub fn migrate(&mut self, msg: MigrateMsg)
        requires
            old(self).wf(),
        ensures
            final(self).wf(),
            final(self).config == (Config {
                default_job_timeout: match msg.default_job_timeout {
                    Some(t) => t,
                    None => old(self).config.default_job_timeout,
                },
                heartbeat_timeout: match msg.heartbeat_timeout {
                    Some(t) => t,
                    None => old(self).config.heartbeat_timeout,
                },
                ..old(self).config
            }),
            final(self).same_records(*old(self)),
    {
        if let Some(t) = msg.default_job_timeout {
            self.config.default_job_timeout = t;
        }
        if let Some(t) = msg.heartbeat_timeout {
            self.config.heartbeat_timeout = t;
        }
    }

    /// The publicly visible part of the configuration.
    pub fn get_config(&self) -> (r: ConfigResponse)
        ensures
            r.community_pool == self.config.community_pool,
            r.community_fee_percent == self.config.community_fee_percent,
    {
        ConfigResponse {
            community_pool: self.config.community_pool.clone(),
            community_fee_percent: self.config.community_fee_percent,
        }
    }
}

} // verus!
