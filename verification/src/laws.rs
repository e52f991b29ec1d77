use vstd::prelude::*;

use crate::counting::lemma_count_zero;
use crate::fees::community_fee_of;
use crate::registry::{deactivate_if_stale, stale, stale_pred};
use crate::state::{Job, JobStatus, Provider};
use crate::sweep::{
    sweep_jobs_rel, swept_provider, swept_provider_map, timed_for, timed_out, timed_pred,
};

verus! {

/// A terminal job admits no further transition: no terminal status passes
/// the guard of any transition. Completion demands an open status, failure
/// and cancellation demand `Submitted`, and the timeout sweep only examines
/// `Submitted` jobs, so each of those operations refuses every terminal job
/// (with the invalid-state error once the caller is authorized).
pub proof fn lemma_terminal_admits_no_transition(status: JobStatus, j: Job, now: u64)
    requires
        status.is_terminal(),
        j.status.is_terminal(),
    ensures
        !status.is_open(),
        !(status is Submitted),
        !timed_out(j, now),
{
}

/// The escrow split is exact: the community cut is the floored whole-percent
/// share, and the two shares recompose the payment to the last unit.
pub proof fn lemma_fee_split_exact(amount: u128, percent: u64)
    requires
        percent <= 100,
    ensures
        community_fee_of(amount, percent) == (amount * percent) / 100,
        community_fee_of(amount, percent) + (amount - community_fee_of(amount, percent))
            == amount,
        0 <= community_fee_of(amount, percent) <= amount,
{
    crate::fees::lemma_fee_at_most_amount(amount, percent);
}

/// The timeout sweep is idempotent. A job the first pass processed is left
/// alone by any later pass; and a second pass at the same time processes
/// nothing at all: no job qualifies, the ledger stands still, and every
/// provider record is a fixed point of the sweep.
pub proof fn lemma_sweep_timeouts_idempotent(
    js0: Seq<Job>,
    js1: Seq<Job>,
    js2: Seq<Job>,
    ps: Seq<Provider>,
    now1: u64,
    now2: u64,
)
    requires
        now1 <= now2,
        sweep_jobs_rel(js0, js1, now1),
        sweep_jobs_rel(js1, js2, now2),
    ensures
        forall|k: int|
            0 <= k < js0.len() && timed_out(#[trigger] js0[k], now1) ==> js2[k] == js1[k],
        now2 == now1 ==> js1.filter(timed_pred(now1)).len() == 0,
        now2 == now1 ==> js2 == js1,
        now2 == now1 ==> ps.map_values(swept_provider_map(js1, now1)) == ps,
{
    assert forall|k: int|
        0 <= k < js0.len() && timed_out(#[trigger] js0[k], now1) implies js2[k] == js1[k] by {
        assert(js1[k].status is Failed);
        assert(!timed_out(js1[k], now2));
    }
    if now2 == now1 {
        assert forall|k: int| 0 <= k < js1.len() implies !timed_out(#[trigger] js1[k], now1) by {
            if timed_out(js0[k], now1) {
                assert(js1[k].status is Failed);
            } else {
                assert(js1[k] == js0[k]);
            }
        }
        assert(js1.all(|x: Job| !(timed_pred(now1))(x)));
        js1.lemma_all_neg_filter_empty(timed_pred(now1));
        assert(js2 =~= js1);
        assert forall|i: int| 0 <= i < ps.len() implies ps.map_values(
            swept_provider_map(js1, now1),
        )[i] == ps[i] by {
            assert(forall|m: int|
                0 <= m < js1.len() ==> !(timed_for(ps[i].address@, now1))(
                    #[trigger] js1[m],
                ));
            lemma_count_zero(js1, timed_for(ps[i].address@, now1));
            assert(swept_provider(js1, ps[i], now1) == ps[i]);
        }
        assert(ps.map_values(swept_provider_map(js1, now1)) =~= ps);
    }
}

/// The inactivity sweep is idempotent at any one time: after a pass, no
/// provider is still stale, so a second pass at the same time deactivates
/// nothing and changes nothing.
pub proof fn lemma_sweep_inactive_idempotent(ps: Seq<Provider>, now: u64, timeout: u64)
    ensures
        ({
            let ps1 = ps.map_values(deactivate_if_stale(now, timeout));
            &&& ps1.filter(stale_pred(now, timeout)).len() == 0
            &&& ps1.map_values(deactivate_if_stale(now, timeout)) == ps1
        }),
{
    let g = deactivate_if_stale(now, timeout);
    let ps1 = ps.map_values(g);
    assert forall|i: int| 0 <= i < ps1.len() implies !stale(#[trigger] ps1[i], now, timeout) by {
        assert(ps1[i] == g(ps[i]));
    }
    assert(ps1.all(|x: Provider| !(stale_pred(now, timeout))(x)));
    ps1.lemma_all_neg_filter_empty(stale_pred(now, timeout));
    assert forall|i: int| 0 <= i < ps1.len() implies ps1.map_values(g)[i] == ps1[i] by {
        assert(ps1[i] == g(ps[i]));
    }
    assert(ps1.map_values(g) =~= ps1);
}

} // verus!
