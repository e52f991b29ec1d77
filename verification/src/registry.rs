use vstd::prelude::*;

use crate::counting::{
    count_where, find_index, lemma_count_zero, lemma_filter_push, lemma_find_index,
};
use crate::error::ContractError;
use crate::msg::{PricingEntry, ProviderResponse, ProvidersResponse, ServiceCapability};
use crate::order::{
    lemma_lex_lt_connected, lemma_lex_lt_transitive, lex_lt, str_lt,
};
use crate::state::{
    completed_job_for, failed_job_for, open_job_for, provider_listed, stats_ok,
    MarketState, Provider,
};

verus! {

/// The records with one given address (at most one exists in a well-formed
/// registry).
pub open spec fn has_address(addr: Seq<char>) -> spec_fn(Provider) -> bool {
    |p: Provider| p.address@ == addr
}

/// Position of the provider with this address, or `-1` when none is
/// registered.
pub open spec fn provider_index(ps: Seq<Provider>, addr: Seq<char>) -> int {
    find_index(ps, has_address(addr))
}

/// The success ratio as a whole percentage, rounded down; a provider with no
/// resolved jobs scores the full 100.
pub open spec fn reputation_of(completed: int, failed: int) -> int {
    if completed + failed == 0 {
        100
    } else {
        (100 * completed) / (completed + failed)
    }
}

pub proof fn lemma_reputation_bounds(completed: int, failed: int)
    requires
        0 <= completed,
        0 <= failed,
    ensures
        0 <= reputation_of(completed, failed) <= 100,
{
    if completed + failed != 0 {
        assert((100 * completed) / (completed + failed) <= 100) by (nonlinear_arith)
            requires
                completed + failed > 0,
                0 <= completed,
                0 <= failed,
        ;
        assert((100 * completed) / (completed + failed) >= 0) by (nonlinear_arith)
            requires
                completed + failed > 0,
                0 <= completed,
        ;
    }
}

/// Recompute a provider's reputation from its counters.
pub fn calculate_reputation(total_completed: u64, total_failed: u64) -> (r: u64)
    ensures
        r == reputation_of(total_completed as int, total_failed as int),
{
    let total: u128 = total_completed as u128 + total_failed as u128;
    if total == 0 {
        100
    } else {
        let q: u128 = (100u128 * (total_completed as u128)) / total;
        proof {
            lemma_reputation_bounds(total_completed as int, total_failed as int);
        }
        q as u64
    }
}

/// One provider record replaced by another with the same address and the same
/// ledger-derived fields keeps the whole state well-formed.
proof fn lemma_wf_provider_update(pre: MarketState, post: MarketState, i: int, q: Provider)
    requires
        pre.wf(),
        0 <= i < pre.providers@.len(),
        q.address@ == pre.providers@[i].address@,
        q.active_jobs == pre.providers@[i].active_jobs,
        q.total_completed == pre.providers@[i].total_completed,
        q.total_failed == pre.providers@[i].total_failed,
        q.reputation <= 100,
        post.config.community_fee_percent == pre.config.community_fee_percent,
        post.jobs@ == pre.jobs@,
        post.next_job_id == pre.next_job_id,
        post.providers@ == pre.providers@.update(i, q),
    ensures
        post.wf(),
{
    let ps0 = pre.providers@;
    let ps1 = post.providers@;
    assert(forall|j: int| 0 <= j < ps1.len() ==> (#[trigger] ps1[j]).address@ == ps0[j].address@);
    assert forall|k: int|
        0 <= k < post.jobs@.len() implies provider_listed(
        ps1,
        (#[trigger] post.jobs@[k]).provider@,
    ) by {
        let a = post.jobs@[k].provider@;
        let w = choose|w: int| 0 <= w < ps0.len() && ps0[w].address@ == a;
        assert(ps1[w].address@ == a);
    }
    assert forall|j: int| 0 <= j < ps1.len() implies stats_ok(post.jobs@, #[trigger] ps1[j]) by {
        assert(stats_ok(pre.jobs@, ps0[j]));
        if j == i {
            assert(ps1[j] == q);
        }
    }
}

/// The records whose address does not order strictly below `addr`; the first
/// such record marks where a new record with address `addr` is inserted.
pub open spec fn addr_not_below(addr: Seq<char>) -> spec_fn(Provider) -> bool {
    |p: Provider| !lex_lt(p.address@, addr)
}

/// Where a new record with this address lands in the sorted registry.
pub open spec fn insert_position(ps: Seq<Provider>, addr: Seq<char>) -> int {
    let r = find_index(ps, addr_not_below(addr));
    if r == -1 {
        ps.len() as int
    } else {
        r
    }
}

/// A provider whose heartbeat is older than the inactivity allowance at time
/// `now` and that is still marked active.
pub open spec fn stale(p: Provider, now: u64, timeout: u64) -> bool {
    p.active && now > p.last_heartbeat + timeout
}

pub open spec fn stale_pred(now: u64, timeout: u64) -> spec_fn(Provider) -> bool {
    |p: Provider| stale(p, now, timeout)
}

/// What the inactivity sweep does to one record.
pub open spec fn deactivate_if_stale(now: u64, timeout: u64) -> spec_fn(Provider) -> Provider {
    |p: Provider|
        if stale(p, now, timeout) {
            Provider { active: false, ..p }
        } else {
            p
        }
}

pub open spec fn provider_address() -> spec_fn(Provider) -> String {
    |p: Provider| p.address
}

/// A response reproduces every published field of the record.
pub open spec fn response_matches(r: ProviderResponse, p: Provider) -> bool {
    &&& r.address == p.address
    &&& r.name == p.name
    &&& r.capabilities@ == p.capabilities@
    &&& r.pricing@ == p.pricing@
    &&& r.endpoint == p.endpoint
    &&& r.capacity == p.capacity
    &&& r.active_jobs == p.active_jobs
    &&& r.total_completed == p.total_completed
    &&& r.reputation == p.reputation
    &&& r.active == p.active
    &&& r.registered_at == p.registered_at
}

/// Providers past the pagination cursor.
pub open spec fn after_cursor(cursor: Seq<char>) -> spec_fn(Provider) -> bool {
    |p: Provider| lex_lt(cursor, p.address@)
}

/// The records a listing draws from, in registry order: all of them, or those
/// strictly past the cursor (exclusive-start pagination).
pub open spec fn eligible_providers(ps: Seq<Provider>, start_after: Option<String>) -> Seq<
    Provider,
> {
    match start_after {
        None => ps,
        Some(c) => ps.filter(after_cursor(c@)),
    }
}

/// The page size a listing uses: the requested limit capped at 100, or 50
/// when none is given.
pub open spec fn providers_page_size(limit: Option<u32>) -> int {
    match limit {
        None => 50,
        Some(l) => if l > 100 {
            100
        } else {
            l as int
        },
    }
}

fn make_provider_response(p: &Provider) -> (r: ProviderResponse)
    ensures
        response_matches(r, *p),
{
    let capabilities = p.capabilities.clone();
    let pricing = p.pricing.clone();
    proof {
        assert(capabilities@ =~= p.capabilities@);
        assert(pricing@ =~= p.pricing@);
    }
    ProviderResponse {
        address: p.address.clone(),
        name: p.name.clone(),
        capabilities,
        pricing,
        endpoint: p.endpoint.clone(),
        capacity: p.capacity,
        active_jobs: p.active_jobs,
        total_completed: p.total_completed,
        reputation: p.reputation,
        active: p.active,
        registered_at: p.registered_at,
    }
}

impl MarketState {
    /// Linear lookup of a provider by address.
    pub fn find_provider(&self, addr: &String) -> (r: Option<usize>)
        ensures
            match r {
                Some(i) => 0 <= i < self.providers@.len() && self.providers@[i as int].address@
                    == addr@ && provider_index(self.providers@, addr@) == i,
                None => !provider_listed(self.providers@, addr@) && provider_index(
                    self.providers@,
                    addr@,
                ) == -1,
            },
    {
        let n = self.providers.len();
        let mut i: usize = 0;
        while i < n
            invariant
                i <= n,
                n == self.providers@.len(),
                forall|j: int| 0 <= j < i ==> (#[trigger] self.providers@[j]).address@ != addr@,
            decreases n - i,
        {
            if self.providers[i].address == *addr {
                proof {
                    lemma_find_index(self.providers@, has_address(addr@));
                }
                return Some(i);
            }
            i = i + 1;
        }
        proof {
            lemma_find_index(self.providers@, has_address(addr@));
        }
        None
    }

    /// A liveness signal: stamps the heartbeat time and re-activates the
    /// provider unconditionally.
    pub fn heartbeat(&mut self, sender: &String, now: u64) -> (r: Result<(), ContractError>)
        requires
            old(self).wf(),
        ensures
            final(self).wf(),
            old(self).config.paused ==> r == Err::<(), _>(ContractError::ContractPaused)
                && *final(self) == *old(self),
            !old(self).config.paused && !provider_listed(old(self).providers@, sender@) ==> r
                == Err::<(), _>(ContractError::ProviderNotFound) && *final(self) == *old(self),
            !old(self).config.paused && provider_listed(old(self).providers@, sender@) ==> ({
                let i = provider_index(old(self).providers@, sender@);
                &&& r == Ok::<(), ContractError>(())
                &&& 0 <= i < old(self).providers@.len()
                &&& final(self).providers@ == old(self).providers@.update(
                    i,
                    Provider { last_heartbeat: now, active: true, ..old(self).providers@[i] },
                )
                &&& final(self).config == old(self).config
                &&& final(self).jobs@ == old(self).jobs@
                &&& final(self).next_job_id == old(self).next_job_id
            }),
    {
        if self.config.paused {
            return Err(ContractError::ContractPaused);
        }
        let found = self.find_provider(sender);
        match found {
            None => Err(ContractError::ProviderNotFound),
            Some(i) => {
                let ghost pre = *self;
                let p = &mut self.providers[i];
                p.last_heartbeat = now;
                p.active = true;
                proof {
                    assert(self.providers@[i as int] =~= Provider {
                        last_heartbeat: now,
                        active: true,
                        ..pre.providers@[i as int]
                    });
                    lemma_wf_provider_update(pre, *self, i as int, self.providers@[i as int]);
                }
                Ok(())
            },
        }
    }

    /// Overwrite only the supplied provider fields, leaving the rest
    /// untouched.
    pub fn update_provider(
        &mut self,
        sender: &String,
        name: Option<String>,
        endpoint: Option<String>,
        pricing: Option<Vec<PricingEntry>>,
        capacity: Option<u32>,
    ) -> (r: Result<(), ContractError>)
        requires
            old(self).wf(),
        ensures
            final(self).wf(),
            old(self).config.paused ==> r == Err::<(), _>(ContractError::ContractPaused)
                && *final(self) == *old(self),
            !old(self).config.paused && !provider_listed(old(self).providers@, sender@) ==> r
                == Err::<(), _>(ContractError::ProviderNotFound) && *final(self) == *old(self),
            !old(self).config.paused && provider_listed(old(self).providers@, sender@) ==> ({
                let i = provider_index(old(self).providers@, sender@);
                &&& r == Ok::<(), ContractError>(())
                &&& 0 <= i < old(self).providers@.len()
                &&& final(self).providers@ == old(self).providers@.update(
                    i,
                    Provider {
                        name: match name {
                            Some(n) => n,
                            None => old(self).providers@[i].name,
                        },
                        endpoint: match endpoint {
                            Some(e) => e,
                            None => old(self).providers@[i].endpoint,
                        },
                        pricing: match pricing {
                            Some(pr) => pr,
                            None => old(self).providers@[i].pricing,
                        },
                        capacity: match capacity {
                            Some(c) => c,
                            None => old(self).providers@[i].capacity,
                        },
                        ..old(self).providers@[i]
                    },
                )
                &&& final(self).config == old(self).config
                &&& final(self).jobs@ == old(self).jobs@
                &&& final(self).next_job_id == old(self).next_job_id
            }),
    {
        if self.config.paused {
            return Err(ContractError::ContractPaused);
        }
        let found = self.find_provider(sender);
        match found {
            None => Err(ContractError::ProviderNotFound),
            Some(i) => {
                let ghost pre = *self;
                let p = &mut self.providers[i];
                if let Some(n) = name {
                    p.name = n;
                }
                if let Some(e) = endpoint {
                    p.endpoint = e;
                }
                if let Some(pr) = pricing {
                    p.pricing = pr;
                }
                if let Some(c) = capacity {
                    p.capacity = c;
                }
                proof {
                    lemma_wf_provider_update(pre, *self, i as int, self.providers@[i as int]);
                }
                Ok(())
            },
        }
    }

    /// Direct operator toggle of the active flag, independent of heartbeats.
    pub fn update_provider_status(&mut self, sender: &String, active: bool) -> (r: Result<
        (),
        ContractError,
    >)
        requires
            old(self).wf(),
        ensures
            final(self).wf(),
            old(self).config.paused ==> r == Err::<(), _>(ContractError::ContractPaused)
                && *final(self) == *old(self),
            !old(self).config.paused && !provider_listed(old(self).providers@, sender@) ==> r
                == Err::<(), _>(ContractError::ProviderNotFound) && *final(self) == *old(self),
            !old(self).config.paused && provider_listed(old(self).providers@, sender@) ==> ({
                let i = provider_index(old(self).providers@, sender@);
                &&& r == Ok::<(), ContractError>(())
                &&& 0 <= i < old(self).providers@.len()
                &&& final(self).providers@ == old(self).providers@.update(
                    i,
                    Provider { active: active, ..old(self).providers@[i] },
                )
                &&& final(self).config == old(self).config
                &&& final(self).jobs@ == old(self).jobs@
                &&& final(self).next_job_id == old(self).next_job_id
            }),
    {
        if self.config.paused {
            return Err(ContractError::ContractPaused);
        }
        let found = self.find_provider(sender);
        match found {
            None => Err(ContractError::ProviderNotFound),
            Some(i) => {
                let ghost pre = *self;
                let p = &mut self.providers[i];
                p.active = active;
                proof {
                    lemma_wf_provider_update(pre, *self, i as int, self.providers@[i as int]);
                }
                Ok(())
            },
        }
    }

    /// Self-registration. A fresh provider starts active, with the default
    /// capacity of 10, a reputation of 50, no load and zero counters, and its
    /// heartbeat clock set to `now`; the record is placed at its address's
    /// position in the sorted registry.
    pub fn register_provider(
        &mut self,
        sender: String,
        name: String,
        capabilities: Vec<ServiceCapability>,
        pricing: Vec<PricingEntry>,
        endpoint: String,
        now: u64,
    ) -> (r: Result<(), ContractError>)
        requires
            old(self).wf(),
        ensures
            final(self).wf(),
            old(self).config.paused ==> r == Err::<(), _>(ContractError::ContractPaused)
                && *final(self) == *old(self),
            !old(self).config.paused && provider_listed(old(self).providers@, sender@) ==> r
                == Err::<(), _>(ContractError::ProviderAlreadyRegistered) && *final(self) == *old(
                self,
            ),
            !old(self).config.paused && !provider_listed(old(self).providers@, sender@) && (
            name@.len() == 0 || capabilities@.len() == 0) ==> r == Err::<(), _>(
                ContractError::InvalidProviderData,
            ) && *final(self) == *old(self),
            !old(self).config.paused && !provider_listed(old(self).providers@, sender@)
                && name@.len() > 0 && capabilities@.len() > 0 ==> ({
                &&& r == Ok::<(), ContractError>(())
                &&& final(self).providers@ == old(self).providers@.insert(
                    insert_position(old(self).providers@, sender@),
                    Provider {
                        address: sender,
                        name: name,
                        capabilities: capabilities,
                        pricing: pricing,
                        endpoint: endpoint,
                        capacity: 10,
                        active_jobs: 0,
                        total_completed: 0,
                        total_failed: 0,
                        reputation: 50,
                        active: true,
                        registered_at: now,
                        last_heartbeat: now,
                    },
                )
                &&& final(self).config == old(self).config
                &&& final(self).jobs@ == old(self).jobs@
                &&& final(self).next_job_id == old(self).next_job_id
            }),
    {
        if self.config.paused {
            return Err(ContractError::ContractPaused);
        }
        if self.find_provider(&sender).is_some() {
            return Err(ContractError::ProviderAlreadyRegistered);
        }
        if name.as_str().is_empty() || capabilities.len() == 0 {
            return Err(ContractError::InvalidProviderData);
        }
        let ghost ps0 = self.providers@;
        proof {
            assert forall|j: int| 0 <= j < ps0.len() implies (#[trigger] ps0[j]).address@
                != sender@ by {
                if ps0[j].address@ == sender@ {
                    assert(provider_listed(ps0, sender@));
                }
            }
        }
        let n = self.providers.len();
        let mut pos: usize = 0;
        loop
            invariant
                pos <= n,
                n == self.providers@.len(),
                self.providers@ == ps0,
                forall|j: int| 0 <= j < pos ==> lex_lt((#[trigger] ps0[j]).address@, sender@),
            ensures
                pos <= n,
                self.providers@ == ps0,
                forall|j: int| 0 <= j < pos ==> lex_lt((#[trigger] ps0[j]).address@, sender@),
                pos == n || !lex_lt(ps0[pos as int].address@, sender@),
            decreases n - pos,
        {
            if pos == n {
                break ;
            }
            if !str_lt(self.providers[pos].address.as_str(), sender.as_str()) {
                break ;
            }
            pos = pos + 1;
        }
        proof {
            lemma_find_index(ps0, addr_not_below(sender@));
            assert(pos == insert_position(ps0, sender@));
        }
        let ghost pre = *self;
        let newp = Provider {
            address: sender,
            name,
            capabilities,
            pricing,
            endpoint,
            capacity: 10,
            active_jobs: 0,
            total_completed: 0,
            total_failed: 0,
            reputation: 50,
            active: true,
            registered_at: now,
            last_heartbeat: now,
        };
        self.providers.insert(pos, newp);
        proof {
            let ps1 = self.providers@;
            ps0.insert_ensures(pos as int, newp);
            assert forall|a: int, b: int| 0 <= a < b < ps1.len() implies lex_lt(
                (#[trigger] ps1[a]).address@,
                (#[trigger] ps1[b]).address@,
            ) by {
                let p = pos as int;
                if a == p {
                    let m = b - 1;
                    assert(ps1[b] == ps0[m]);
                    assert(lex_lt(newp.address@, ps0[p].address@)) by {
                        if !lex_lt(newp.address@, ps0[p].address@) {
                            lemma_lex_lt_connected(ps0[p].address@, newp.address@);
                        }
                    }
                    if m != p {
                        lemma_lex_lt_transitive(newp.address@, ps0[p].address@, ps0[m].address@);
                    }
                } else if b == p {
                    assert(ps1[a] == ps0[a]);
                } else if a < p && b < p {
                    assert(ps1[a] == ps0[a] && ps1[b] == ps0[b]);
                } else if a > p && b > p {
                    assert(ps1[a] == ps0[a - 1] && ps1[b] == ps0[b - 1]);
                } else {
                    assert(a < p && b > p);
                    assert(ps1[a] == ps0[a] && ps1[b] == ps0[b - 1]);
                    assert(a < b - 1 < ps0.len());
                    assert(lex_lt(ps0[a].address@, ps0[b - 1].address@));
                }
            }
            assert forall|k: int| 0 <= k < self.jobs@.len() implies provider_listed(
                ps1,
                (#[trigger] self.jobs@[k]).provider@,
            ) by {
                let a = self.jobs@[k].provider@;
                assert(provider_listed(ps0, a));
                let w = choose|w: int| 0 <= w < ps0.len() && ps0[w].address@ == a;
                if w < pos as int {
                    assert(ps1[w].address@ == a);
                } else {
                    assert(ps1[w + 1].address@ == a);
                }
            }
            assert forall|j: int| 0 <= j < ps1.len() implies stats_ok(
                self.jobs@,
                #[trigger] ps1[j],
            ) by {
                let p = pos as int;
                if j == p {
                    assert forall|k: int| 0 <= k < self.jobs@.len() implies (#[trigger] self.jobs@[k]).provider@
                        != sender@ by {
                        assert(provider_listed(ps0, self.jobs@[k].provider@));
                    }
                    assert(forall|k: int|
                        0 <= k < self.jobs@.len() ==> !(open_job_for(sender@))(
                            #[trigger] self.jobs@[k],
                        ) && !(completed_job_for(sender@))(self.jobs@[k]) && !(failed_job_for(
                            sender@,
                        ))(self.jobs@[k]));
                    lemma_count_zero(self.jobs@, open_job_for(sender@));
                    lemma_count_zero(self.jobs@, completed_job_for(sender@));
                    lemma_count_zero(self.jobs@, failed_job_for(sender@));
                } else if j < p {
                    assert(ps1[j] == ps0[j]);
                    assert(stats_ok(self.jobs@, ps0[j]));
                } else {
                    assert(ps1[j] == ps0[j - 1]);
                    assert(stats_ok(self.jobs@, ps0[j - 1]));
                }
            }
        }
        Ok(())
    }

    /// Deactivate every active provider whose heartbeat is older than the
    /// inactivity allowance. Idempotent: the records it touches come out no
    /// longer active, so a second pass at the same time touches nothing.
    /// Returns the deactivated addresses in registry order.
    pub fn sweep_inactive(&mut self, now: u64) -> (r: Result<Vec<String>, ContractError>)
        requires
            old(self).wf(),
        ensures
            final(self).wf(),
            old(self).config.paused ==> r == Err::<Vec<String>, _>(ContractError::ContractPaused)
                && *final(self) == *old(self),
            !old(self).config.paused ==> ({
                let timeout = old(self).config.heartbeat_timeout;
                &&& r matches Ok(out)
                &&& final(self).providers@ == old(self).providers@.map_values(
                    deactivate_if_stale(now, timeout),
                )
                &&& out@ == old(self).providers@.filter(stale_pred(now, timeout)).map_values(
                    provider_address(),
                )
                &&& final(self).config == old(self).config
                &&& final(self).jobs@ == old(self).jobs@
                &&& final(self).next_job_id == old(self).next_job_id
            }),
    {
        if self.config.paused {
            return Err(ContractError::ContractPaused);
        }
        let timeout = self.config.heartbeat_timeout;
        let ghost s0 = *self;
        let ghost g = deactivate_if_stale(now, timeout);
        let ghost st = stale_pred(now, timeout);
        let mut out: Vec<String> = Vec::new();
        let n = self.providers.len();
        let mut i: usize = 0;
        proof {
            assert(self.providers@.take(0) =~= Seq::<Provider>::empty());
            assert(s0.providers@.take(0).map_values(g) =~= Seq::<Provider>::empty());
            assert(s0.providers@.take(0).filter(st) =~= Seq::<Provider>::empty());
            reveal(Seq::filter);
        }
        while i < n
            invariant
                i <= n,
                n == s0.providers@.len(),
                self.wf(),
                self.config == s0.config,
                self.jobs@ == s0.jobs@,
                self.next_job_id == s0.next_job_id,
                self.providers@.len() == n,
                timeout == s0.config.heartbeat_timeout,
                g == deactivate_if_stale(now, timeout),
                st == stale_pred(now, timeout),
                forall|j: int| i <= j < n ==> self.providers@[j] == s0.providers@[j],
                self.providers@.take(i as int) == s0.providers@.take(i as int).map_values(g),
                out@ == s0.providers@.take(i as int).filter(st).map_values(provider_address()),
            decreases n - i,
        {
            let ghost pre = *self;
            let ghost pcur = s0.providers@[i as int];
            let hb = self.providers[i].last_heartbeat;
            let is_stale = self.providers[i].active && now > hb && now - hb > timeout;
            proof {
                assert(is_stale == stale(pcur, now, timeout));
            }
            if is_stale {
                let addr = self.providers[i].address.clone();
                out.push(addr);
                let p = &mut self.providers[i];
                p.active = false;
                proof {
                    assert(self.providers@[i as int] =~= Provider { active: false, ..pcur });
                    lemma_wf_provider_update(pre, *self, i as int, self.providers@[i as int]);
                }
            }
            proof {
                let k = i as int;
                Seq::lemma_take_succ(s0.providers@, k);
                assert(s0.providers@.take(k + 1) =~= s0.providers@.take(k).push(pcur));
                lemma_filter_push(s0.providers@.take(k), st, pcur);
                assert(s0.providers@.take(k + 1).map_values(g) =~= s0.providers@.take(
                    k,
                ).map_values(g).push(g(pcur)));
                if st(pcur) {
                    assert(s0.providers@.take(k + 1).filter(st).map_values(provider_address())
                        =~= s0.providers@.take(k).filter(st).map_values(provider_address()).push(
                        pcur.address,
                    ));
                } else {
                    assert(s0.providers@.take(k + 1).filter(st) == s0.providers@.take(k).filter(
                        st,
                    ));
                }
                assert(self.providers@.take(k + 1) =~= self.providers@.take(k).push(
                    self.providers@[k],
                ));
                assert(self.providers@.take(k + 1) == s0.providers@.take(k + 1).map_values(g));
            }
            i = i + 1;
        }
        proof {
            assert(self.providers@.take(n as int) =~= self.providers@);
            assert(s0.providers@.take(n as int) =~= s0.providers@);
        }
        Ok(out)
    }

    /// Look one provider up and publish its record.
    pub fn get_provider(&self, address: &String) -> (r: Result<ProviderResponse, ContractError>)
        ensures
            provider_listed(self.providers@, address@) ==> ({
                &&& r matches Ok(resp)
                &&& response_matches(
                    resp,
                    self.providers@[provider_index(self.providers@, address@)],
                )
            }),
            !provider_listed(self.providers@, address@) ==> r == Err::<ProviderResponse, _>(
                ContractError::ProviderNotFound,
            ),
    {
        match self.find_provider(address) {
            None => Err(ContractError::ProviderNotFound),
            Some(i) => Ok(make_provider_response(&self.providers[i])),
        }
    }

    /// One page of the registry, in ascending address order. The cursor is
    /// exclusive: the page starts strictly after it. The page size is the
    /// requested limit capped at 100, with a default of 50.
    pub fn list_providers(&self, start_after: Option<String>, limit: Option<u32>) -> (r:
        ProvidersResponse)
        ensures
            ({
                let el = eligible_providers(self.providers@, start_after);
                let lim = providers_page_size(limit);
                &&& r.providers@.len() == (if lim <= el.len() {
                    lim
                } else {
                    el.len() as int
                })
                &&& forall|m: int|
                    0 <= m < r.providers@.len() ==> response_matches(
                        #[trigger] r.providers@[m],
                        el[m],
                    )
            }),
    {
        let lim: usize = match &limit {
            None => 50,
            Some(l) => if *l > 100 {
                100
            } else {
                (*l) as usize
            },
        };
        let ghost el_all = eligible_providers(self.providers@, start_after);
        let mut out: Vec<ProviderResponse> = Vec::new();
        let n = self.providers.len();
        let mut i: usize = 0;
        proof {
            assert(self.providers@.take(0) =~= Seq::<Provider>::empty());
            reveal(Seq::filter);
        }
        while i < n
            invariant
                i <= n,
                n == self.providers@.len(),
                lim == providers_page_size(limit),
                ({
                    let el = eligible_providers(self.providers@.take(i as int), start_after);
                    &&& out@.len() == (if lim as int <= el.len() {
                        lim as int
                    } else {
                        el.len() as int
                    })
                    &&& forall|m: int|
                        0 <= m < out@.len() ==> response_matches(#[trigger] out@[m], el[m])
                }),
            decreases n - i,
        {
            let ghost k = i as int;
            let ghost el_k = eligible_providers(self.providers@.take(k), start_after);
            let ghost pcur = self.providers@[k];
            let is_eligible = match &start_after {
                None => true,
                Some(c) => str_lt(c.as_str(), self.providers[i].address.as_str()),
            };
            proof {
                Seq::lemma_take_succ(self.providers@, k);
                assert(self.providers@.take(k + 1) =~= self.providers@.take(k).push(pcur));
                match &start_after {
                    None => {
                        assert(eligible_providers(self.providers@.take(k + 1), start_after)
                            =~= el_k.push(pcur));
                    },
                    Some(c) => {
                        lemma_filter_push(self.providers@.take(k), after_cursor(c@), pcur);
                    },
                }
            }
            if is_eligible && out.len() < lim {
                let resp = make_provider_response(&self.providers[i]);
                out.push(resp);
            }
            i = i + 1;
        }
        proof {
            assert(self.providers@.take(n as int) =~= self.providers@);
        }
        ProvidersResponse { providers: out }
    }
}

} // verus!
