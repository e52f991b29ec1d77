use vstd::prelude::*;

use crate::counting::{
    count_where, lemma_count_disjoint, lemma_count_le_pred, lemma_count_push, lemma_count_take_le,
    lemma_filter_push,
};
use crate::error::ContractError;
use crate::ledger::lemma_wf_job_transition;
use crate::msg::TransferMsg;
use crate::order::{lemma_lex_lt_irreflexive, lex_lt};
use crate::registry::{calculate_reputation, lemma_reputation_bounds, reputation_of};
use crate::state::{
    failed_job_for, open_job_for, provider_listed, Job, JobStatus, MarketState, Provider,
};

verus! {

/// A job the timeout sweep acts on: still submitted, and strictly past its
/// deadline. Jobs in `Processing` are deliberately not examined.
pub open spec fn timed_out(j: Job, now: u64) -> bool {
    j.status is Submitted && now > j.deadline
}

pub open spec fn timed_pred(now: u64) -> spec_fn(Job) -> bool {
    |j: Job| timed_out(j, now)
}

/// Timed-out jobs of one provider.
pub open spec fn timed_for(addr: Seq<char>, now: u64) -> spec_fn(Job) -> bool {
    |j: Job| j.provider@ == addr && timed_out(j, now)
}

/// The fixed reason recorded on a job the sweep fails.
pub open spec fn timeout_reason() -> Seq<char> {
    "Timeout: Job not completed within deadline"@
}

/// How the sweep rewrites one timed-out job: failed with the fixed reason,
/// stamped now, everything else untouched.
pub open spec fn timed_job_rel(o: Job, n: Job, now: u64) -> bool {
    &&& n.id == o.id
    &&& n.client == o.client
    &&& n.provider == o.provider
    &&& n.job_type == o.job_type
    &&& n.parameters == o.parameters
    &&& n.payment_amount == o.payment_amount
    &&& n.status is Failed
    &&& n.result_hash == o.result_hash
    &&& n.result_url == o.result_url
    &&& n.created_at == o.created_at
    &&& n.completed_at == Some(now)
    &&& n.deadline == o.deadline
    &&& n.failure_reason matches Some(m) && m@ == timeout_reason()
}

/// What the sweep leaves of one job.
pub open spec fn sweep_job_at(o: Job, n: Job, now: u64) -> bool {
    if timed_out(o, now) {
        timed_job_rel(o, n, now)
    } else {
        n == o
    }
}

/// The whole ledger after a sweep, pointwise.
pub open spec fn sweep_jobs_rel(js0: Seq<Job>, js1: Seq<Job>, now: u64) -> bool {
    &&& js1.len() == js0.len()
    &&& forall|k: int| 0 <= k < js0.len() ==> sweep_job_at(#[trigger] js0[k], js1[k], now)
}

/// What the sweep leaves of one provider record: its load drops and its
/// failure counter grows by the number of its jobs that timed out, and its
/// reputation is recomputed whenever that number is positive.
pub open spec fn swept_provider(js0: Seq<Job>, p: Provider, now: u64) -> Provider {
    let t = count_where(js0, timed_for(p.address@, now));
    if t == 0 {
        p
    } else {
        Provider {
            active_jobs: (p.active_jobs - t) as u32,
            total_failed: (p.total_failed + t) as u64,
            reputation: reputation_of(p.total_completed as int, p.total_failed + t) as u64,
            ..p
        }
    }
}

pub open spec fn swept_provider_map(js0: Seq<Job>, now: u64) -> spec_fn(Provider) -> Provider {
    |p: Provider| swept_provider(js0, p, now)
}

pub open spec fn job_id_of() -> spec_fn(Job) -> u64 {
    |j: Job| j.id
}

/// The refund a timed-out job owes its client.
pub open spec fn refund_of() -> spec_fn(Job) -> TransferMsg {
    |j: Job| TransferMsg { to_address: j.client, amount: j.payment_amount }
}

impl MarketState {
    /// Fail and refund every submitted job strictly past its deadline.
    /// Idempotent: a job moved out of `Submitted` by one pass is skipped by
    /// every later one. Returns the affected job ids and the batched refund
    /// transfers, both in ascending id order.
    pub fn sweep_timeouts(&mut self, now: u64) -> (r: Result<
        (Vec<u64>, Vec<TransferMsg>),
        ContractError,
    >)
        requires
            old(self).wf(),
        ensures
            final(self).wf(),
            old(self).config.paused ==> r == Err::<(Vec<u64>, Vec<TransferMsg>), _>(
                ContractError::ContractPaused,
            ) && *final(self) == *old(self),
            !old(self).config.paused ==> ({
                &&& r matches Ok(out)
                &&& sweep_jobs_rel(old(self).jobs@, final(self).jobs@, now)
                &&& final(self).providers@ == old(self).providers@.map_values(
                    swept_provider_map(old(self).jobs@, now),
                )
                &&& out.0@ == old(self).jobs@.filter(timed_pred(now)).map_values(job_id_of())
                &&& out.1@ == old(self).jobs@.filter(timed_pred(now)).map_values(refund_of())
                &&& final(self).config == old(self).config
                &&& final(self).next_job_id == old(self).next_job_id
            }),
    {
        if self.config.paused {
            return Err(ContractError::ContractPaused);
        }
        let ghost s0 = *self;
        let mut ids: Vec<u64> = Vec::new();
        let mut refunds: Vec<TransferMsg> = Vec::new();
        let n = self.jobs.len();
        let mut k: usize = 0;
        proof {
            assert(s0.jobs@.take(0) =~= Seq::<Job>::empty());
            reveal(Seq::filter);
            assert forall|i: int| 0 <= i < self.providers@.len() implies #[trigger] self.providers@[i]
                == swept_provider(s0.jobs@.take(0), s0.providers@[i], now) by {
                assert(count_where(s0.jobs@.take(0), timed_for(s0.providers@[i].address@, now))
                    == 0);
            }
        }
        while k < n
            invariant
                k <= n,
                n == s0.jobs@.len(),
                s0.wf(),
                !s0.config.paused,
                self.wf(),
                self.config == s0.config,
                self.next_job_id == s0.next_job_id,
                self.jobs@.len() == n,
                self.providers@.len() == s0.providers@.len(),
                forall|m: int| 0 <= m < k ==> sweep_job_at(#[trigger] s0.jobs@[m], self.jobs@[m], now),
                forall|m: int| k <= m < n ==> #[trigger] self.jobs@[m] == s0.jobs@[m],
                forall|i: int|
                    0 <= i < self.providers@.len() ==> #[trigger] self.providers@[i]
                        == swept_provider(s0.jobs@.take(k as int), s0.providers@[i], now),
                ids@ == s0.jobs@.take(k as int).filter(timed_pred(now)).map_values(job_id_of()),
                refunds@ == s0.jobs@.take(k as int).filter(timed_pred(now)).map_values(refund_of()),
            decreases n - k,
        {
            let ghost ki = k as int;
            let ghost jk = s0.jobs@[ki];
            let is_submitted = match self.jobs[k].status {
                JobStatus::Submitted => true,
                _ => false,
            };
            let deadline = self.jobs[k].deadline;
            proof {
                Seq::lemma_take_succ(s0.jobs@, ki);
                assert(s0.jobs@.take(ki + 1) =~= s0.jobs@.take(ki).push(jk));
                lemma_filter_push(s0.jobs@.take(ki), timed_pred(now), jk);
            }
            if is_submitted && now > deadline {
                let ghost pre = *self;
                let paddr = self.jobs[k].provider.clone();
                let pi = match self.find_provider(&paddr) {
                    Some(i) => i,
                    None => {
                        proof {
                            assert(provider_listed(self.providers@, self.jobs@[ki].provider@));
                            assert(false);
                        }
                        return Err(ContractError::ProviderNotFound);
                    },
                };
                let ghost ai = pre.providers@[pi as int].address@;
                let ghost t_k = count_where(s0.jobs@.take(ki), timed_for(ai, now));
                proof {
                    // this provider's record currently reads
                    //   active_jobs   = original - t_k
                    //   total_failed  = original + t_k
                    assert(pre.providers@[pi as int] == swept_provider(
                        s0.jobs@.take(ki),
                        s0.providers@[pi as int],
                        now,
                    ));
                    assert((timed_for(ai, now))(jk));
                    lemma_count_push(s0.jobs@.take(ki), timed_for(ai, now), jk);
                    lemma_count_take_le(s0.jobs@, timed_for(ai, now), ki + 1);
                    lemma_count_le_pred(s0.jobs@, timed_for(ai, now), open_job_for(ai));
                    assert(t_k + 1 <= count_where(s0.jobs@, open_job_for(ai)));
                    assert(s0.providers@[pi as int].active_jobs == count_where(
                        s0.jobs@,
                        open_job_for(ai),
                    ));
                    lemma_count_disjoint(s0.jobs@, failed_job_for(ai), timed_for(ai, now));
                    assert(s0.providers@[pi as int].total_failed + t_k + 1 <= s0.jobs@.len());
                }
                let client = self.jobs[k].client.clone();
                let payment = self.jobs[k].payment_amount;
                let jid = self.jobs[k].id;
                let completed = self.providers[pi].total_completed;
                let failed_new = self.providers[pi].total_failed + 1;
                let rep = calculate_reputation(completed, failed_new);
                proof {
                    lemma_reputation_bounds(completed as int, failed_new as int);
                }
                {
                    let j = &mut self.jobs[k];
                    j.status = JobStatus::Failed;
                    j.failure_reason = Some(
                        String::from_str("Timeout: Job not completed within deadline"),
                    );
                    j.completed_at = Some(now);
                }
                {
                    let p = &mut self.providers[pi];
                    p.active_jobs = p.active_jobs - 1;
                    p.total_failed = failed_new;
                    p.reputation = rep;
                }
                ids.push(jid);
                refunds.push(TransferMsg { to_address: client, amount: payment });
                proof {
                    assert(timed_job_rel(jk, self.jobs@[ki], now));
                    assert(self.providers@[pi as int] =~= Provider {
                        active_jobs: (pre.providers@[pi as int].active_jobs - 1) as u32,
                        total_failed: (pre.providers@[pi as int].total_failed + 1) as u64,
                        reputation: reputation_of(
                            pre.providers@[pi as int].total_completed as int,
                            pre.providers@[pi as int].total_failed + 1,
                        ) as u64,
                        ..pre.providers@[pi as int]
                    });
                    lemma_wf_job_transition(pre, *self, ki, pi as int);
                    // the providers now read as swept over the longer prefix
                    assert forall|i: int| 0 <= i < self.providers@.len() implies #[trigger] self.providers@[i]
                        == swept_provider(s0.jobs@.take(ki + 1), s0.providers@[i], now) by {
                        let a = s0.providers@[i].address@;
                        lemma_count_push(s0.jobs@.take(ki), timed_for(a, now), jk);
                        if i == pi as int {
                            assert(count_where(s0.jobs@.take(ki + 1), timed_for(a, now)) == t_k
                                + 1);
                            assert(reputation_of(
                                s0.providers@[i].total_completed as int,
                                s0.providers@[i].total_failed + t_k + 1,
                            ) == reputation_of(completed as int, failed_new as int));
                        } else {
                            assert(a != ai) by {
                                if a == ai {
                                    if i < pi as int {
                                        assert(lex_lt(
                                            s0.providers@[i].address@,
                                            s0.providers@[pi as int].address@,
                                        ));
                                    } else {
                                        assert(lex_lt(
                                            s0.providers@[pi as int].address@,
                                            s0.providers@[i].address@,
                                        ));
                                    }
                                    lemma_lex_lt_irreflexive(ai);
                                }
                            }
                            assert(!(timed_for(a, now))(jk));
                            assert(self.providers@[i] == pre.providers@[i]);
                        }
                    }
                    // outputs grew by exactly this job
                    assert(ids@ =~= s0.jobs@.take(ki + 1).filter(timed_pred(now)).map_values(
                        job_id_of(),
                    ));
                    assert(refunds@ =~= s0.jobs@.take(ki + 1).filter(timed_pred(now)).map_values(
                        refund_of(),
                    ));
                }
            } else {
                proof {
                    assert(!timed_out(jk, now));
                    assert forall|i: int| 0 <= i < self.providers@.len() implies #[trigger] self.providers@[i]
                        == swept_provider(s0.jobs@.take(ki + 1), s0.providers@[i], now) by {
                        let a = s0.providers@[i].address@;
                        lemma_count_push(s0.jobs@.take(ki), timed_for(a, now), jk);
                    }
                    assert(ids@ == s0.jobs@.take(ki + 1).filter(timed_pred(now)).map_values(
                        job_id_of(),
                    ));
                    assert(refunds@ == s0.jobs@.take(ki + 1).filter(timed_pred(now)).map_values(
                        refund_of(),
                    ));
                }
            }
            k = k + 1;
        }
        proof {
            assert(s0.jobs@.take(n as int) =~= s0.jobs@);
            assert forall|i: int| 0 <= i < self.providers@.len() implies #[trigger] self.providers@[i]
                == s0.providers@.map_values(swept_provider_map(s0.jobs@, now))[i] by {
            }
            assert(self.providers@ =~= s0.providers@.map_values(swept_provider_map(s0.jobs@, now)));
        }
        Ok((ids, refunds))
    }
}

} // verus!
