use vstd::prelude::*;

use crate::counting::{
    count_where, find_index, lemma_count_le_len, lemma_count_missing, lemma_count_pos,
    lemma_count_push, lemma_count_update, lemma_filter_push, lemma_find_index,
};
use crate::error::ContractError;
use crate::fees::{community_fee_of, split_payment};
use crate::msg::{Coin, JobResponse, JobsResponse, TransferMsg};
use crate::order::{lemma_lex_lt_irreflexive, lex_lt};
use crate::registry::{provider_index, reputation_of};
use crate::state::{
    completed_job_for, failed_job_for, job_record_ok, open_job_for, provider_listed, stats_ok,
    Job, JobStatus, MarketState, Provider,
};

verus! {

/// How long after its creation a submitted job may still be cancelled by its
/// client, in seconds.
pub const CANCEL_WINDOW_SECONDS: u64 = 300;

/// The payment attached to a request in the designated asset: the amount of
/// the first such coin, or zero when none is attached (an amount of zero is
/// rejected either way).
pub open spec fn umedas_coin() -> spec_fn(Coin) -> bool {
    |c: Coin| c.denom@ == "umedas"@
}

pub open spec fn attached_payment(funds: Seq<Coin>) -> int {
    let i = find_index(funds, umedas_coin());
    if i == -1 {
        0
    } else {
        funds[i].amount as int
    }
}

/// A published job record reproduces every stored field, with the status
/// rendered as its label.
pub open spec fn job_response_matches(r: JobResponse, j: Job) -> bool {
    &&& r.id == j.id
    &&& r.client == j.client
    &&& r.provider == j.provider
    &&& r.job_type == j.job_type
    &&& r.parameters == j.parameters
    &&& r.payment_amount == j.payment_amount
    &&& r.status@ == j.status.label()
    &&& r.result_hash == j.result_hash
    &&& r.result_url == j.result_url
    &&& r.created_at == j.created_at
    &&& r.completed_at == j.completed_at
}

/// Jobs of one provider past the pagination cursor.
pub open spec fn provider_job_after(addr: Seq<char>, start_after: Option<u64>) -> spec_fn(
    Job,
) -> bool {
    |j: Job|
        j.provider@ == addr && (match start_after {
            None => true,
            Some(c) => j.id > c,
        })
}

/// Jobs of one client past the pagination cursor.
pub open spec fn client_job_after(addr: Seq<char>, start_after: Option<u64>) -> spec_fn(
    Job,
) -> bool {
    |j: Job|
        j.client@ == addr && (match start_after {
            None => true,
            Some(c) => j.id > c,
        })
}

/// The page size a job listing uses: the requested limit capped at 50, or 10
/// when none is given.
pub open spec fn jobs_page_size(limit: Option<u32>) -> int {
    match limit {
        None => 10,
        Some(l) => if l > 50 {
            50
        } else {
            l as int
        },
    }
}

/// One open job moved to a terminal state, with its provider's record
/// adjusted in step, keeps the whole state well-formed. The transition must
/// leave the job's identity and escrow fields alone and move the provider's
/// load and counters exactly as the new status demands.
pub(crate) proof fn lemma_wf_job_transition(pre: MarketState, post: MarketState, k: int, pi: int)
    requires
        pre.wf(),
        0 <= k < pre.jobs@.len(),
        0 <= pi < pre.providers@.len(),
        pre.providers@[pi].address@ == pre.jobs@[k].provider@,
        pre.jobs@[k].status.is_open(),
        post.config.community_fee_percent == pre.config.community_fee_percent,
        post.next_job_id == pre.next_job_id,
        post.jobs@ == pre.jobs@.update(k, post.jobs@[k]),
        post.jobs@.len() == pre.jobs@.len(),
        post.jobs@[k].id == pre.jobs@[k].id,
        post.jobs@[k].provider@ == pre.jobs@[k].provider@,
        post.jobs@[k].payment_amount == pre.jobs@[k].payment_amount,
        job_record_ok(post.jobs@[k]),
        post.jobs@[k].status.is_terminal(),
        post.providers@ == pre.providers@.update(pi, post.providers@[pi]),
        post.providers@.len() == pre.providers@.len(),
        post.providers@[pi].address@ == pre.providers@[pi].address@,
        post.providers@[pi].active_jobs == pre.providers@[pi].active_jobs - 1,
        post.providers@[pi].total_completed == pre.providers@[pi].total_completed + (
        if post.jobs@[k].status is Completed {
            1int
        } else {
            0int
        }),
        post.providers@[pi].total_failed == pre.providers@[pi].total_failed + (
        if post.jobs@[k].status is Failed {
            1int
        } else {
            0int
        }),
        post.providers@[pi].reputation <= 100,
    ensures
        post.wf(),
{
    let js0 = pre.jobs@;
    let js1 = post.jobs@;
    let ps0 = pre.providers@;
    let ps1 = post.providers@;
    let addr = js0[k].provider@;
    assert(forall|i: int| 0 <= i < ps1.len() ==> (#[trigger] ps1[i]).address@ == ps0[i].address@);
    assert(forall|m: int| 0 <= m < js1.len() ==> (#[trigger] js1[m]).id == m + 1);
    assert(forall|m: int| 0 <= m < js1.len() ==> job_record_ok(#[trigger] js1[m]));
    assert forall|m: int|
        0 <= m < js1.len() implies provider_listed(ps1, (#[trigger] js1[m]).provider@) by {
        let a = js1[m].provider@;
        assert(js0[m].provider@ == a);
        let w = choose|w: int| 0 <= w < ps0.len() && ps0[w].address@ == a;
        assert(ps1[w].address@ == a);
    }
    assert forall|i: int| 0 <= i < ps1.len() implies stats_ok(js1, #[trigger] ps1[i]) by {
        let ai = ps0[i].address@;
        assert(stats_ok(js0, ps0[i]));
        lemma_count_update(js0, open_job_for(ai), k, js1[k]);
        lemma_count_update(js0, completed_job_for(ai), k, js1[k]);
        lemma_count_update(js0, failed_job_for(ai), k, js1[k]);
        if i != pi {
            assert(ai != addr) by {
                if ai == addr {
                    if i < pi {
                        assert(lex_lt(ps0[i].address@, ps0[pi].address@));
                    } else {
                        assert(lex_lt(ps0[pi].address@, ps0[i].address@));
                    }
                    lemma_lex_lt_irreflexive(addr);
                }
            }
            assert(!(open_job_for(ai))(js0[k]) && !(open_job_for(ai))(js1[k]));
            assert(!(completed_job_for(ai))(js0[k]) && !(completed_job_for(ai))(js1[k]));
            assert(!(failed_job_for(ai))(js0[k]) && !(failed_job_for(ai))(js1[k]));
            assert(ps1[i] == ps0[i]);
        } else {
            assert((open_job_for(ai))(js0[k]));
            assert(!(open_job_for(ai))(js1[k]));
            assert(!(completed_job_for(ai))(js0[k]));
            assert(!(failed_job_for(ai))(js0[k]));
        }
    }
}

impl MarketState {
    /// Whether a job with this id exists; ids are handed out sequentially
    /// from 1, so existence is a range check.
    pub open spec fn has_job(self, job_id: u64) -> bool {
        1 <= job_id <= self.jobs@.len()
    }

    /// Submit a job to a provider, attaching its payment. The escrow is the
    /// job record itself; the deadline is fixed now and never re-derived.
    pub fn submit_job(
        &mut self,
        sender: String,
        provider: String,
        job_type: String,
        parameters: String,
        funds: Vec<Coin>,
        now: u64,
    ) -> (r: Result<u64, ContractError>)
        requires
            old(self).wf(),
            old(self).jobs@.len() < u32::MAX,
            now + old(self).config.default_job_timeout <= u64::MAX,
        ensures
            final(self).wf(),
            old(self).config.paused ==> r == Err::<u64, _>(ContractError::ContractPaused)
                && *final(self) == *old(self),
            !old(self).config.paused && !provider_listed(old(self).providers@, provider@) ==> r
                == Err::<u64, _>(ContractError::ProviderNotFound) && *final(self) == *old(self),
            !old(self).config.paused && provider_listed(old(self).providers@, provider@) && !old(
                self,
            ).providers@[provider_index(old(self).providers@, provider@)].active ==> r == Err::<
                u64,
                _,
            >(ContractError::ProviderNotActive) && *final(self) == *old(self),
            !old(self).config.paused && provider_listed(old(self).providers@, provider@) && old(
                self,
            ).providers@[provider_index(old(self).providers@, provider@)].active
                && attached_payment(funds@) == 0 ==> r == Err::<u64, _>(ContractError::NoPayment)
                && *final(self) == *old(self),
            !old(self).config.paused && provider_listed(old(self).providers@, provider@) && old(
                self,
            ).providers@[provider_index(old(self).providers@, provider@)].active
                && attached_payment(funds@) > 0 ==> ({
                let pi = provider_index(old(self).providers@, provider@);
                &&& r == Ok::<u64, ContractError>(old(self).next_job_id)
                &&& final(self).jobs@ == old(self).jobs@.push(
                    Job {
                        id: old(self).next_job_id,
                        client: sender,
                        provider: provider,
                        job_type: job_type,
                        parameters: parameters,
                        payment_amount: attached_payment(funds@) as u128,
                        status: JobStatus::Submitted,
                        result_hash: None,
                        result_url: None,
                        created_at: now,
                        completed_at: None,
                        deadline: (now + old(self).config.default_job_timeout) as u64,
                        failure_reason: None,
                    },
                )
                &&& final(self).providers@ == old(self).providers@.update(
                    pi,
                    Provider {
                        active_jobs: (old(self).providers@[pi].active_jobs + 1) as u32,
                        ..old(self).providers@[pi]
                    },
                )
                &&& final(self).next_job_id == old(self).next_job_id + 1
                &&& final(self).config == old(self).config
                &&& old(self).config.default_job_timeout > 0 ==> final(self).jobs@.last().deadline
                    > final(self).jobs@.last().created_at
            }),
    {
        if self.config.paused {
            return Err(ContractError::ContractPaused);
        }
        let pi = match self.find_provider(&provider) {
            None => {
                return Err(ContractError::ProviderNotFound);
            },
            Some(i) => i,
        };
        if !self.providers[pi].active {
            return Err(ContractError::ProviderNotActive);
        }
        let needle = String::from_str("umedas");
        let nf = funds.len();
        let mut fi: usize = 0;
        loop
            invariant
                fi <= nf,
                nf == funds@.len(),
                needle@ == "umedas"@,
                forall|j: int| 0 <= j < fi ==> (#[trigger] funds@[j]).denom@ != "umedas"@,
            ensures
                fi <= nf,
                forall|j: int| 0 <= j < fi ==> (#[trigger] funds@[j]).denom@ != "umedas"@,
                fi == nf || funds@[fi as int].denom@ == "umedas"@,
            decreases nf - fi,
        {
            if fi == nf {
                break ;
            }
            if funds[fi].denom == needle {
                break ;
            }
            fi = fi + 1;
        }
        proof {
            lemma_find_index(funds@, umedas_coin());
        }
        if fi == nf {
            return Err(ContractError::NoPayment);
        }
        let amount = funds[fi].amount;
        if amount == 0 {
            return Err(ContractError::NoPayment);
        }
        let ghost pre = *self;
        let job_id = self.next_job_id;
        let deadline = now + self.config.default_job_timeout;
        let job = Job {
            id: job_id,
            client: sender,
            provider: provider,
            job_type,
            parameters,
            payment_amount: amount,
            status: JobStatus::Submitted,
            result_hash: None,
            result_url: None,
            created_at: now,
            completed_at: None,
            deadline,
            failure_reason: None,
        };
        self.jobs.push(job);
        proof {
            assert(count_where(pre.jobs@, open_job_for(pre.providers@[pi as int].address@))
                <= pre.jobs@.len()) by {
                lemma_count_le_len(pre.jobs@, open_job_for(pre.providers@[pi as int].address@));
            }
        }
        let p = &mut self.providers[pi];
        p.active_jobs = p.active_jobs + 1;
        self.next_job_id = self.next_job_id + 1;
        proof {
            let js0 = pre.jobs@;
            let js1 = self.jobs@;
            let ps0 = pre.providers@;
            let ps1 = self.providers@;
            let newj = js1[js0.len() as int];
            let addr = ps0[pi as int].address@;
            assert(ps1 == ps0.update(pi as int, ps1[pi as int]));
            assert(ps1[pi as int] =~= Provider {
                active_jobs: (ps0[pi as int].active_jobs + 1) as u32,
                ..ps0[pi as int]
            });
            assert(forall|i: int|
                0 <= i < ps1.len() ==> (#[trigger] ps1[i]).address@ == ps0[i].address@);
            assert forall|m: int|
                0 <= m < js1.len() implies provider_listed(ps1, (#[trigger] js1[m]).provider@) by {
                let a = js1[m].provider@;
                if m < js0.len() {
                    assert(provider_listed(ps0, a));
                    let w = choose|w: int| 0 <= w < ps0.len() && ps0[w].address@ == a;
                    assert(ps1[w].address@ == a);
                } else {
                    assert(a == addr);
                    assert(ps1[pi as int].address@ == a);
                }
            }
            assert forall|i: int| 0 <= i < ps1.len() implies stats_ok(js1, #[trigger] ps1[i]) by {
                let ai = ps0[i].address@;
                assert(stats_ok(js0, ps0[i]));
                lemma_count_push(js0, open_job_for(ai), newj);
                lemma_count_push(js0, completed_job_for(ai), newj);
                lemma_count_push(js0, failed_job_for(ai), newj);
                if i != pi as int {
                    assert(ai != addr) by {
                        if ai == addr {
                            if i < pi as int {
                                assert(lex_lt(ps0[i].address@, ps0[pi as int].address@));
                            } else {
                                assert(lex_lt(ps0[pi as int].address@, ps0[i].address@));
                            }
                            lemma_lex_lt_irreflexive(addr);
                        }
                    }
                    assert(!(open_job_for(ai))(newj));
                    assert(!(completed_job_for(ai))(newj));
                    assert(!(failed_job_for(ai))(newj));
                    assert(ps1[i] == ps0[i]);
                } else {
                    assert((open_job_for(ai))(newj));
                    assert(!(completed_job_for(ai))(newj));
                    assert(!(failed_job_for(ai))(newj));
                }
            }
        }
        Ok(job_id)
    }

    /// The assigned provider reports success. The job closes, the escrow is
    /// split into the community cut and the provider's share, and both
    /// transfers are declared (the community one only when non-zero).
    pub fn complete_job(
        &mut self,
        sender: &String,
        job_id: u64,
        result_hash: String,
        result_url: String,
        now: u64,
    ) -> (r: Result<Vec<TransferMsg>, ContractError>)
        requires
            old(self).wf(),
        ensures
            final(self).wf(),
            old(self).config.paused ==> r == Err::<Vec<TransferMsg>, _>(
                ContractError::ContractPaused,
            ) && *final(self) == *old(self),
            !old(self).config.paused && !old(self).has_job(job_id) ==> r == Err::<
                Vec<TransferMsg>,
                _,
            >(ContractError::JobNotFound) && *final(self) == *old(self),
            !old(self).config.paused && old(self).has_job(job_id) && sender@ != old(
                self,
            ).jobs@[job_id - 1].provider@ ==> r == Err::<Vec<TransferMsg>, _>(
                ContractError::Unauthorized,
            ) && *final(self) == *old(self),
            !old(self).config.paused && old(self).has_job(job_id) && sender@ == old(
                self,
            ).jobs@[job_id - 1].provider@ && !old(self).jobs@[job_id - 1].status.is_open() ==> r
                == Err::<Vec<TransferMsg>, _>(ContractError::InvalidJobState) && *final(self)
                == *old(self),
            !old(self).config.paused && old(self).has_job(job_id) && sender@ == old(
                self,
            ).jobs@[job_id - 1].provider@ && old(self).jobs@[job_id - 1].status.is_open() ==> ({
                let k = job_id - 1;
                let j0 = old(self).jobs@[k];
                let pi = provider_index(old(self).providers@, j0.provider@);
                let fee = community_fee_of(j0.payment_amount, old(self).config.community_fee_percent);
                &&& 0 <= pi < old(self).providers@.len()
                &&& final(self).jobs@ == old(self).jobs@.update(
                    k,
                    Job {
                        status: JobStatus::Completed,
                        result_hash: Some(result_hash),
                        result_url: Some(result_url),
                        completed_at: Some(now),
                        ..j0
                    },
                )
                &&& final(self).providers@ == old(self).providers@.update(
                    pi,
                    Provider {
                        active_jobs: (old(self).providers@[pi].active_jobs - 1) as u32,
                        total_completed: (old(self).providers@[pi].total_completed + 1) as u64,
                        ..old(self).providers@[pi]
                    },
                )
                &&& final(self).config == old(self).config
                &&& final(self).next_job_id == old(self).next_job_id
                &&& r matches Ok(t)
                &&& t@ == (if fee > 0 {
                    seq![
                        TransferMsg {
                            to_address: old(self).config.community_pool,
                            amount: fee as u128,
                        },
                        TransferMsg {
                            to_address: j0.provider,
                            amount: (j0.payment_amount - fee) as u128,
                        },
                    ]
                } else {
                    seq![
                        TransferMsg {
                            to_address: j0.provider,
                            amount: (j0.payment_amount - fee) as u128,
                        },
                    ]
                })
            }),
    {
        if self.config.paused {
            return Err(ContractError::ContractPaused);
        }
        if job_id == 0 || job_id > self.jobs.len() as u64 {
            return Err(ContractError::JobNotFound);
        }
        let k = (job_id - 1) as usize;
        if !(*sender == self.jobs[k].provider) {
            return Err(ContractError::Unauthorized);
        }
        let is_open = match self.jobs[k].status {
            JobStatus::Submitted => true,
            JobStatus::Processing => true,
            _ => false,
        };
        if !is_open {
            return Err(ContractError::InvalidJobState);
        }
        let ghost pre = *self;
        let paddr = self.jobs[k].provider.clone();
        let pi = match self.find_provider(&paddr) {
            Some(i) => i,
            None => {
                proof {
                    assert(provider_listed(pre.providers@, pre.jobs@[k as int].provider@));
                }
                return Err(ContractError::ProviderNotFound);
            },
        };
        let payment = self.jobs[k].payment_amount;
        let (fee, provider_fee) = match split_payment(payment, self.config.community_fee_percent) {
            Ok(shares) => shares,
            Err(e) => {
                return Err(e);
            },
        };
        proof {
            lemma_count_pos(
                pre.jobs@,
                open_job_for(pre.providers@[pi as int].address@),
                k as int,
            );
            lemma_count_missing(
                pre.jobs@,
                completed_job_for(pre.providers@[pi as int].address@),
                k as int,
            );
        }
        {
            let j = &mut self.jobs[k];
            j.status = JobStatus::Completed;
            j.result_hash = Some(result_hash);
            j.result_url = Some(result_url);
            j.completed_at = Some(now);
        }
        {
            let p = &mut self.providers[pi];
            p.active_jobs = p.active_jobs - 1;
            p.total_completed = p.total_completed + 1;
        }
        proof {
            assert(self.jobs@[k as int] =~= Job {
                status: JobStatus::Completed,
                result_hash: Some(result_hash),
                result_url: Some(result_url),
                completed_at: Some(now),
                ..pre.jobs@[k as int]
            });
            assert(self.providers@[pi as int] =~= Provider {
                active_jobs: (pre.providers@[pi as int].active_jobs - 1) as u32,
                total_completed: (pre.providers@[pi as int].total_completed + 1) as u64,
                ..pre.providers@[pi as int]
            });
            lemma_wf_job_transition(pre, *self, k as int, pi as int);
        }
        let mut transfers: Vec<TransferMsg> = Vec::new();
        if fee > 0 {
            transfers.push(
                TransferMsg { to_address: self.config.community_pool.clone(), amount: fee },
            );
        }
        transfers.push(TransferMsg { to_address: paddr, amount: provider_fee });
        proof {
            let fee_s = community_fee_of(
                pre.jobs@[k as int].payment_amount,
                pre.config.community_fee_percent,
            );
            if fee_s > 0 {
                assert(transfers@ =~= seq![
                    TransferMsg { to_address: pre.config.community_pool, amount: fee_s as u128 },
                    TransferMsg {
                        to_address: pre.jobs@[k as int].provider,
                        amount: (pre.jobs@[k as int].payment_amount - fee_s) as u128,
                    },
                ]);
            } else {
                assert(transfers@ =~= seq![
                    TransferMsg {
                        to_address: pre.jobs@[k as int].provider,
                        amount: (pre.jobs@[k as int].payment_amount - fee_s) as u128,
                    },
                ]);
            }
        }
        Ok(transfers)
    }

    /// The assigned provider reports failure on a still-submitted job. The
    /// failure is recorded with its reason, the provider's failure counter
    /// and reputation are updated, and the full escrow is declared as a
    /// refund to the client.
    pub fn fail_job(&mut self, sender: &String, job_id: u64, reason: String, now: u64) -> (r:
        Result<Vec<TransferMsg>, ContractError>)
        requires
            old(self).wf(),
        ensures
            final(self).wf(),
            old(self).config.paused ==> r == Err::<Vec<TransferMsg>, _>(
                ContractError::ContractPaused,
            ) && *final(self) == *old(self),
            !old(self).config.paused && !old(self).has_job(job_id) ==> r == Err::<
                Vec<TransferMsg>,
                _,
            >(ContractError::JobNotFound) && *final(self) == *old(self),
            !old(self).config.paused && old(self).has_job(job_id) && sender@ != old(
                self,
            ).jobs@[job_id - 1].provider@ ==> r == Err::<Vec<TransferMsg>, _>(
                ContractError::Unauthorized,
            ) && *final(self) == *old(self),
            !old(self).config.paused && old(self).has_job(job_id) && sender@ == old(
                self,
            ).jobs@[job_id - 1].provider@ && !(old(self).jobs@[job_id - 1].status is Submitted)
                ==> r == Err::<Vec<TransferMsg>, _>(ContractError::InvalidJobState) && *final(self)
                == *old(self),
            !old(self).config.paused && old(self).has_job(job_id) && sender@ == old(
                self,
            ).jobs@[job_id - 1].provider@ && old(self).jobs@[job_id - 1].status is Submitted ==> ({
                let k = job_id - 1;
                let j0 = old(self).jobs@[k];
                let pi = provider_index(old(self).providers@, j0.provider@);
                let p0 = old(self).providers@[pi];
                &&& 0 <= pi < old(self).providers@.len()
                &&& final(self).jobs@ == old(self).jobs@.update(
                    k,
                    Job {
                        status: JobStatus::Failed,
                        failure_reason: Some(reason),
                        completed_at: Some(now),
                        ..j0
                    },
                )
                &&& final(self).providers@ == old(self).providers@.update(
                    pi,
                    Provider {
                        active_jobs: (p0.active_jobs - 1) as u32,
                        total_failed: (p0.total_failed + 1) as u64,
                        reputation: reputation_of(
                            p0.total_completed as int,
                            p0.total_failed + 1,
                        ) as u64,
                        ..p0
                    },
                )
                &&& final(self).config == old(self).config
                &&& final(self).next_job_id == old(self).next_job_id
                &&& r matches Ok(t)
                &&& t@ == seq![
                    TransferMsg { to_address: j0.client, amount: j0.payment_amount },
                ]
            }),
    {
        if self.config.paused {
            return Err(ContractError::ContractPaused);
        }
        if job_id == 0 || job_id > self.jobs.len() as u64 {
            return Err(ContractError::JobNotFound);
        }
        let k = (job_id - 1) as usize;
        if !(*sender == self.jobs[k].provider) {
            return Err(ContractError::Unauthorized);
        }
        let is_submitted = match self.jobs[k].status {
            JobStatus::Submitted => true,
            _ => false,
        };
        if !is_submitted {
            return Err(ContractError::InvalidJobState);
        }
        let ghost pre = *self;
        let paddr = self.jobs[k].provider.clone();
        let pi = match self.find_provider(&paddr) {
            Some(i) => i,
            None => {
                proof {
                    assert(provider_listed(pre.providers@, pre.jobs@[k as int].provider@));
                }
                return Err(ContractError::ProviderNotFound);
            },
        };
        let client = self.jobs[k].client.clone();
        let payment = self.jobs[k].payment_amount;
        proof {
            lemma_count_pos(
                pre.jobs@,
                open_job_for(pre.providers@[pi as int].address@),
                k as int,
            );
            lemma_count_missing(
                pre.jobs@,
                failed_job_for(pre.providers@[pi as int].address@),
                k as int,
            );
        }
        let completed = self.providers[pi].total_completed;
        let failed = self.providers[pi].total_failed + 1;
        let rep = crate::registry::calculate_reputation(completed, failed);
        proof {
            crate::registry::lemma_reputation_bounds(completed as int, failed as int);
        }
        {
            let j = &mut self.jobs[k];
            j.status = JobStatus::Failed;
            j.failure_reason = Some(reason);
            j.completed_at = Some(now);
        }
        {
            let p = &mut self.providers[pi];
            p.active_jobs = p.active_jobs - 1;
            p.total_failed = failed;
            p.reputation = rep;
        }
        proof {
            assert(self.jobs@[k as int] =~= Job {
                status: JobStatus::Failed,
                failure_reason: Some(reason),
                completed_at: Some(now),
                ..pre.jobs@[k as int]
            });
            assert(self.providers@[pi as int] =~= Provider {
                active_jobs: (pre.providers@[pi as int].active_jobs - 1) as u32,
                total_failed: (pre.providers@[pi as int].total_failed + 1) as u64,
                reputation: reputation_of(
                    pre.providers@[pi as int].total_completed as int,
                    pre.providers@[pi as int].total_failed + 1,
                ) as u64,
                ..pre.providers@[pi as int]
            });
            lemma_wf_job_transition(pre, *self, k as int, pi as int);
        }
        let mut transfers: Vec<TransferMsg> = Vec::new();
        transfers.push(TransferMsg { to_address: client, amount: payment });
        proof {
            assert(transfers@ =~= seq![
                TransferMsg {
                    to_address: pre.jobs@[k as int].client,
                    amount: pre.jobs@[k as int].payment_amount,
                },
            ]);
        }
        Ok(transfers)
    }

    /// The client withdraws a still-submitted job within the allowance
    /// window. The job is cancelled with no reputation penalty and the full
    /// escrow is declared as a refund.
    pub fn cancel_job(&mut self, sender: &String, job_id: u64, now: u64) -> (r: Result<
        Vec<TransferMsg>,
        ContractError,
    >)
        requires
            old(self).wf(),
        ensures
            final(self).wf(),
            old(self).config.paused ==> r == Err::<Vec<TransferMsg>, _>(
                ContractError::ContractPaused,
            ) && *final(self) == *old(self),
            !old(self).config.paused && !old(self).has_job(job_id) ==> r == Err::<
                Vec<TransferMsg>,
                _,
            >(ContractError::JobNotFound) && *final(self) == *old(self),
            !old(self).config.paused && old(self).has_job(job_id) && sender@ != old(
                self,
            ).jobs@[job_id - 1].client@ ==> r == Err::<Vec<TransferMsg>, _>(
                ContractError::Unauthorized,
            ) && *final(self) == *old(self),
            !old(self).config.paused && old(self).has_job(job_id) && sender@ == old(
                self,
            ).jobs@[job_id - 1].client@ && !(old(self).jobs@[job_id - 1].status is Submitted) ==> r
                == Err::<Vec<TransferMsg>, _>(ContractError::InvalidJobState) && *final(self)
                == *old(self),
            !old(self).config.paused && old(self).has_job(job_id) && sender@ == old(
                self,
            ).jobs@[job_id - 1].client@ && old(self).jobs@[job_id - 1].status is Submitted && now
                - old(self).jobs@[job_id - 1].created_at > CANCEL_WINDOW_SECONDS ==> r == Err::<
                Vec<TransferMsg>,
                _,
            >(ContractError::CancelWindowExpired) && *final(self) == *old(self),
            !old(self).config.paused && old(self).has_job(job_id) && sender@ == old(
                self,
            ).jobs@[job_id - 1].client@ && old(self).jobs@[job_id - 1].status is Submitted && now
                - old(self).jobs@[job_id - 1].created_at <= CANCEL_WINDOW_SECONDS ==> ({
                let k = job_id - 1;
                let j0 = old(self).jobs@[k];
                let pi = provider_index(old(self).providers@, j0.provider@);
                &&& 0 <= pi < old(self).providers@.len()
                &&& final(self).jobs@ == old(self).jobs@.update(
                    k,
                    Job { status: JobStatus::Cancelled, completed_at: Some(now), ..j0 },
                )
                &&& final(self).providers@ == old(self).providers@.update(
                    pi,
                    Provider {
                        active_jobs: (old(self).providers@[pi].active_jobs - 1) as u32,
                        ..old(self).providers@[pi]
                    },
                )
                &&& final(self).config == old(self).config
                &&& final(self).next_job_id == old(self).next_job_id
                &&& r matches Ok(t)
                &&& t@ == seq![
                    TransferMsg { to_address: j0.client, amount: j0.payment_amount },
                ]
            }),
    {
        if self.config.paused {
            return Err(ContractError::ContractPaused);
        }
        if job_id == 0 || job_id > self.jobs.len() as u64 {
            return Err(ContractError::JobNotFound);
        }
        let k = (job_id - 1) as usize;
        if !(*sender == self.jobs[k].client) {
            return Err(ContractError::Unauthorized);
        }
        let is_submitted = match self.jobs[k].status {
            JobStatus::Submitted => true,
            _ => false,
        };
        if !is_submitted {
            return Err(ContractError::InvalidJobState);
        }
        let created_at = self.jobs[k].created_at;
        if now > created_at && now - created_at > CANCEL_WINDOW_SECONDS {
            return Err(ContractError::CancelWindowExpired);
        }
        let ghost pre = *self;
        let paddr = self.jobs[k].provider.clone();
        let pi = match self.find_provider(&paddr) {
            Some(i) => i,
            None => {
                proof {
                    assert(provider_listed(pre.providers@, pre.jobs@[k as int].provider@));
                }
                return Err(ContractError::ProviderNotFound);
            },
        };
        let client = self.jobs[k].client.clone();
        let payment = self.jobs[k].payment_amount;
        proof {
            lemma_count_pos(
                pre.jobs@,
                open_job_for(pre.providers@[pi as int].address@),
                k as int,
            );
        }
        {
            let j = &mut self.jobs[k];
            j.status = JobStatus::Cancelled;
            j.completed_at = Some(now);
        }
        {
            let p = &mut self.providers[pi];
            p.active_jobs = p.active_jobs - 1;
        }
        proof {
            assert(self.jobs@[k as int] =~= Job {
                status: JobStatus::Cancelled,
                completed_at: Some(now),
                ..pre.jobs@[k as int]
            });
            assert(self.providers@[pi as int] =~= Provider {
                active_jobs: (pre.providers@[pi as int].active_jobs - 1) as u32,
                ..pre.providers@[pi as int]
            });
            lemma_wf_job_transition(pre, *self, k as int, pi as int);
        }
        let mut transfers: Vec<TransferMsg> = Vec::new();
        transfers.push(TransferMsg { to_address: client, amount: payment });
        proof {
            assert(transfers@ =~= seq![
                TransferMsg {
                    to_address: pre.jobs@[k as int].client,
                    amount: pre.jobs@[k as int].payment_amount,
                },
            ]);
        }
        Ok(transfers)
    }

    /// Look one job up and publish its record.
    pub fn get_job(&self, job_id: u64) -> (r: Result<JobResponse, ContractError>)
        ensures
            self.has_job(job_id) ==> ({
                &&& r matches Ok(resp)
                &&& job_response_matches(resp, self.jobs@[job_id - 1])
            }),
            !self.has_job(job_id) ==> r == Err::<JobResponse, _>(ContractError::JobNotFound),
    {
        if job_id == 0 || job_id > self.jobs.len() as u64 {
            return Err(ContractError::JobNotFound);
        }
        let k = (job_id - 1) as usize;
        Ok(make_job_response(&self.jobs[k]))
    }

    /// One page of a provider's jobs, ascending by id, starting strictly
    /// after the cursor. The page size is the requested limit capped at 50,
    /// with a default of 10.
    pub fn list_jobs_by_provider(
        &self,
        provider: String,
        start_after: Option<u64>,
        limit: Option<u32>,
    ) -> (r: JobsResponse)
        ensures
            ({
                let el = self.jobs@.filter(provider_job_after(provider@, start_after));
                let lim = jobs_page_size(limit);
                &&& r.jobs@.len() == (if lim <= el.len() {
                    lim
                } else {
                    el.len() as int
                })
                &&& forall|m: int|
                    0 <= m < r.jobs@.len() ==> job_response_matches(#[trigger] r.jobs@[m], el[m])
            }),
    {
        let lim: usize = match &limit {
            None => 10,
            Some(l) => if *l > 50 {
                50
            } else {
                (*l) as usize
            },
        };
        let ghost pred = provider_job_after(provider@, start_after);
        let mut out: Vec<JobResponse> = Vec::new();
        let n = self.jobs.len();
        let mut i: usize = 0;
        proof {
            assert(self.jobs@.take(0) =~= Seq::<Job>::empty());
            reveal(Seq::filter);
        }
        while i < n
            invariant
                i <= n,
                n == self.jobs@.len(),
                lim == jobs_page_size(limit),
                pred == provider_job_after(provider@, start_after),
                ({
                    let el = self.jobs@.take(i as int).filter(pred);
                    &&& out@.len() == (if lim as int <= el.len() {
                        lim as int
                    } else {
                        el.len() as int
                    })
                    &&& forall|m: int|
                        0 <= m < out@.len() ==> job_response_matches(#[trigger] out@[m], el[m])
                }),
            decreases n - i,
        {
            let ghost k = i as int;
            let ghost jcur = self.jobs@[k];
            let matches_provider = self.jobs[i].provider == provider;
            let past_cursor = match start_after {
                None => true,
                Some(c) => self.jobs[i].id > c,
            };
            proof {
                Seq::lemma_take_succ(self.jobs@, k);
                assert(self.jobs@.take(k + 1) =~= self.jobs@.take(k).push(jcur));
                lemma_filter_push(self.jobs@.take(k), pred, jcur);
            }
            if matches_provider && past_cursor && out.len() < lim {
                let resp = make_job_response(&self.jobs[i]);
                out.push(resp);
            }
            i = i + 1;
        }
        proof {
            assert(self.jobs@.take(n as int) =~= self.jobs@);
        }
        JobsResponse { jobs: out }
    }

    /// One page of a client's jobs, ascending by id, starting strictly after
    /// the cursor. The page size is the requested limit capped at 50, with a
    /// default of 10.
    pub fn list_jobs_by_client(
        &self,
        client: String,
        start_after: Option<u64>,
        limit: Option<u32>,
    ) -> (r: JobsResponse)
        ensures
            ({
                let el = self.jobs@.filter(client_job_after(client@, start_after));
                let lim = jobs_page_size(limit);
                &&& r.jobs@.len() == (if lim <= el.len() {
                    lim
                } else {
                    el.len() as int
                })
                &&& forall|m: int|
                    0 <= m < r.jobs@.len() ==> job_response_matches(#[trigger] r.jobs@[m], el[m])
            }),
    {
        let lim: usize = match &limit {
            None => 10,
            Some(l) => if *l > 50 {
                50
            } else {
                (*l) as usize
            },
        };
        let ghost pred = client_job_after(client@, start_after);
        let mut out: Vec<JobResponse> = Vec::new();
        let n = self.jobs.len();
        let mut i: usize = 0;
        proof {
            assert(self.jobs@.take(0) =~= Seq::<Job>::empty());
            reveal(Seq::filter);
        }
        while i < n
            invariant
                i <= n,
                n == self.jobs@.len(),
                lim == jobs_page_size(limit),
                pred == client_job_after(client@, start_after),
                ({
                    let el = self.jobs@.take(i as int).filter(pred);
                    &&& out@.len() == (if lim as int <= el.len() {
                        lim as int
                    } else {
                        el.len() as int
                    })
                    &&& forall|m: int|
                        0 <= m < out@.len() ==> job_response_matches(#[trigger] out@[m], el[m])
                }),
            decreases n - i,
        {
            let ghost k = i as int;
            let ghost jcur = self.jobs@[k];
            let matches_client = self.jobs[i].client == client;
            let past_cursor = match start_after {
                None => true,
                Some(c) => self.jobs[i].id > c,
            };
            proof {
                Seq::lemma_take_succ(self.jobs@, k);
                assert(self.jobs@.take(k + 1) =~= self.jobs@.take(k).push(jcur));
                lemma_filter_push(self.jobs@.take(k), pred, jcur);
            }
            if matches_client && past_cursor && out.len() < lim {
                let resp = make_job_response(&self.jobs[i]);
                out.push(resp);
            }
            i = i + 1;
        }
        proof {
            assert(self.jobs@.take(n as int) =~= self.jobs@);
        }
        JobsResponse { jobs: out }
    }
}

fn clone_opt_string(o: &Option<String>) -> (r: Option<String>)
    ensures
        r == *o,
{
    match o {
        None => None,
        Some(s) => Some(s.clone()),
    }
}

fn make_job_response(j: &Job) -> (r: JobResponse)
    ensures
        job_response_matches(r, *j),
{
    JobResponse {
        id: j.id,
        client: j.client.clone(),
        provider: j.provider.clone(),
        job_type: j.job_type.clone(),
        parameters: j.parameters.clone(),
        payment_amount: j.payment_amount,
        status: j.status.to_string(),
        result_hash: clone_opt_string(&j.result_hash),
        result_url: clone_opt_string(&j.result_url),
        created_at: j.created_at,
        completed_at: j.completed_at,
    }
}

} // verus!
