//! The multi-hop swap engine and its settlement guard: a route is resolved
//! into an ordered hop list, the hops are executed on staged pool copies
//! (forward for exact-in, backward for exact-out), and the staged mutations
//! are committed only when the caller's slippage bound holds.

use vstd::prelude::*;

verus! {

use crate::error::{OsmosisError, StdError};
use crate::pool::{
    amount_value, lemma_swap_spec_in_gives_out, lemma_swap_spec_out_gives_in, swap_spec, Pool,
    PoolV,
};
use crate::store::PoolStore;
use crate::types::{Step, StepV, Swap, SwapAmount, SwapAmountWithLimit, SwapV};

/// The views of a step list.
pub open spec fn steps_view(route: Seq<Step>) -> Seq<StepV> {
    route.map_values(|s: Step| s@)
}

/// The ordered hop list of a route: the first hop as given, then each step
/// paired with the previous hop's output denomination as its input.
pub open spec fn hops_spec(first: SwapV, route: Seq<StepV>) -> Seq<SwapV> {
    Seq::new(
        route.len() + 1,
        |i: int|
            if i == 0 {
                first
            } else {
                SwapV {
                    pool_id: route[i - 1].pool_id,
                    denom_in: if i == 1 {
                        first.denom_out
                    } else {
                        route[i - 2].denom_out
                    },
                    denom_out: route[i - 1].denom_out,
                }
            },
    )
}

/// Executes the hops forward on the pool map, threading the payout of each
/// hop into the next as its exact input; the result is the final payout and
/// the map with every touched pool replaced by its staged copy.
pub open spec fn run_route_in(pools: Map<u64, PoolV>, hops: Seq<SwapV>, input: u128) -> Result<
    (u128, Map<u64, PoolV>),
    OsmosisError,
>
    decreases hops.len(),
{
    if hops.len() == 0 {
        Ok((input, pools))
    } else {
        let h = hops[0];
        if !pools.contains_key(h.pool_id) {
            Err(OsmosisError::Std(StdError::NotFound))
        } else {
            match swap_spec(pools[h.pool_id], h.denom_in, h.denom_out, SwapAmount::In(input)) {
                Err(e) => Err(e),
                Ok(ap) => run_route_in(
                    pools.insert(h.pool_id, ap.1),
                    hops.drop_first(),
                    amount_value(ap.0),
                ),
            }
        }
    }
}

/// Executes the hops backward on the pool map: each hop, processed last to
/// first, is solved for the input it must charge so that the demanded output
/// can be paid, and that input becomes the output demanded of the hop before.
pub open spec fn run_route_out(pools: Map<u64, PoolV>, hops: Seq<SwapV>, output: u128) -> Result<
    (u128, Map<u64, PoolV>),
    OsmosisError,
>
    decreases hops.len(),
{
    if hops.len() == 0 {
        Ok((output, pools))
    } else {
        let h = hops.last();
        if !pools.contains_key(h.pool_id) {
            Err(OsmosisError::Std(StdError::NotFound))
        } else {
            match swap_spec(pools[h.pool_id], h.denom_in, h.denom_out, SwapAmount::Out(output)) {
                Err(e) => Err(e),
                Ok(ap) => run_route_out(
                    pools.insert(h.pool_id, ap.1),
                    hops.drop_last(),
                    amount_value(ap.0),
                ),
            }
        }
    }
}

/// The route executed in the direction that the exact side demands: the
/// result carries the opposite side of the caller's exact side.
pub open spec fn run_route(pools: Map<u64, PoolV>, hops: Seq<SwapV>, amount: SwapAmount) -> Result<
    (SwapAmount, Map<u64, PoolV>),
    OsmosisError,
> {
    match amount {
        SwapAmount::In(input) => match run_route_in(pools, hops, input) {
            Ok(r) => Ok((SwapAmount::Out(r.0), r.1)),
            Err(e) => Err(e),
        },
        SwapAmount::Out(output) => match run_route_out(pools, hops, output) {
            Ok(r) => Ok((SwapAmount::In(r.0), r.1)),
            Err(e) => Err(e),
        },
    }
}

/// The pool map after saving each staged `(id, pool)` snapshot in order.
pub open spec fn fold_saves(m: Map<u64, PoolV>, s: Seq<(u64, Pool)>) -> Map<u64, PoolV>
    decreases s.len(),
{
    if s.len() == 0 {
        m
    } else {
        fold_saves(m.insert(s[0].0, s[0].1@), s.drop_first())
    }
}

/// Appending one snapshot folds as a final insert.
proof fn lemma_fold_saves_push(m: Map<u64, PoolV>, s: Seq<(u64, Pool)>, x: (u64, Pool))
    ensures
        fold_saves(m, s.push(x)) == fold_saves(m, s).insert(x.0, x.1@),
    decreases s.len(),
{
    if s.len() == 0 {
        assert(s.push(x).drop_first() =~= Seq::<(u64, Pool)>::empty());
        assert(s.push(x)[0] == x);
        assert(fold_saves(m, s.push(x)) == fold_saves(
            m.insert(x.0, x.1@),
            Seq::<(u64, Pool)>::empty(),
        ));
        assert(fold_saves(m.insert(x.0, x.1@), Seq::<(u64, Pool)>::empty()) == m.insert(
            x.0,
            x.1@,
        ));
        assert(fold_saves(m, s) == m);
    } else {
        assert(s.push(x)[0] == s[0]);
        assert(s.push(x).drop_first() =~= s.drop_first().push(x));
        lemma_fold_saves_push(m.insert(s[0].0, s[0].1@), s.drop_first(), x);
        assert(fold_saves(m, s.push(x)) == fold_saves(
            m.insert(s[0].0, s[0].1@),
            s.drop_first().push(x),
        ));
        assert(fold_saves(m, s) == fold_saves(m.insert(s[0].0, s[0].1@), s.drop_first()));
    }
}

/// The index of the last snapshot of the given pool id, or `-1`.
spec fn last_occ(s: Seq<(u64, Pool)>, id: u64) -> int
    decreases s.len(),
{
    if s.len() == 0 {
        -1
    } else if s.last().0 == id {
        s.len() - 1
    } else {
        last_occ(s.drop_last(), id)
    }
}

/// What the folded map holds at an id: the last staged snapshot of that
/// pool, or what the underlying map held when no snapshot names it.
proof fn lemma_fold_saves_at(m: Map<u64, PoolV>, s: Seq<(u64, Pool)>, id: u64)
    ensures
        last_occ(s, id) >= 0 ==> {
            &&& 0 <= last_occ(s, id) < s.len()
            &&& s[last_occ(s, id)].0 == id
            &&& (forall|t: int| last_occ(s, id) < t < s.len() ==> s[t].0 != id)
            &&& fold_saves(m, s).contains_key(id)
            &&& fold_saves(m, s)[id] == s[last_occ(s, id)].1@
        },
        last_occ(s, id) < 0 ==> {
            &&& (forall|j: int| 0 <= j < s.len() ==> s[j].0 != id)
            &&& (fold_saves(m, s).contains_key(id) <==> m.contains_key(id))
            &&& (m.contains_key(id) ==> fold_saves(m, s)[id] == m[id])
        },
    decreases s.len(),
{
    if s.len() > 0 {
        let s0 = s.drop_last();
        let x = s.last();
        lemma_fold_saves_at(m, s0, id);
        assert(s =~= s0.push(x));
        lemma_fold_saves_push(m, s0, x);
        assert(fold_saves(m, s) == fold_saves(m, s0).insert(x.0, x.1@));
        assert(forall|j: int| 0 <= j < s0.len() ==> s[j] == s0[j]);
    }
}

/// The freshest copy of a pool during routing: the latest staged snapshot
/// when the route has already touched the pool, else the stored pool.
fn load_latest(store: &PoolStore, updated: &Vec<(u64, Pool)>, id: u64) -> (r: Result<
    Pool,
    OsmosisError,
>)
    ensures
        ({
            let m = fold_saves(store@, updated@);
            match r {
                Ok(p) => m.contains_key(id) && p@ == m[id],
                Err(e) => !m.contains_key(id) && e == OsmosisError::Std(StdError::NotFound),
            }
        }),
{
    let mut j = updated.len();
    while j > 0
        invariant
            j <= updated@.len(),
            forall|t: int| j <= t < updated@.len() ==> updated@[t].0 != id,
        decreases j,
    {
        j = j - 1;
        if updated[j].0 == id {
            let p = updated[j].1.clone();
            proof {
                lemma_fold_saves_at(store@, updated@, id);
                let l = last_occ(updated@, id);
                assert(l >= 0);
                assert(l == j as int);
            }
            return Ok(p);
        }
    }
    proof {
        lemma_fold_saves_at(store@, updated@, id);
    }
    store.load(id)
}

/// Resolves a route into its hop list and executes every hop on staged pool
/// copies, without touching the store: the caller receives the final
/// opposite-side amount and the ordered list of staged pool snapshots, one
/// per hop, which fold over the store's map exactly as `run_route` says.
pub fn complex_swap(store: &PoolStore, first: Swap, route: Vec<Step>, amount: SwapAmount) -> (r:
    Result<(SwapAmount, Vec<(u64, Pool)>), OsmosisError>)
    ensures
        ({
            let hops = hops_spec(first@, steps_view(route@));
            match r {
                Ok(av) => {
                    &&& run_route(store@, hops, amount) == Ok::<
                        (SwapAmount, Map<u64, PoolV>),
                        OsmosisError,
                    >((av.0, fold_saves(store@, av.1@)))
                    &&& av.1@.len() == hops.len()
                    &&& amount is In ==> forall|i: int|
                        0 <= i < hops.len() ==> av.1@[i].0 == hops[i].pool_id
                    &&& amount is Out ==> forall|i: int|
                        0 <= i < hops.len() ==> av.1@[i].0 == hops[hops.len() - 1 - i].pool_id
                },
                Err(e) => run_route(store@, hops, amount) == Err::<
                    (SwapAmount, Map<u64, PoolV>),
                    OsmosisError,
                >(e),
            }
        }),
{
    let ghost hops = hops_spec(first@, steps_view(route@));
    let swaps = build_swaps(&first, &route);
    match amount {
        SwapAmount::In(input0) => {
            let mut updated: Vec<(u64, Pool)> = Vec::new();
            let mut cur: u128 = input0;
            let mut k: usize = 0;
            proof {
                assert(hops.skip(0) =~= hops);
                assert(updated@ =~= Seq::<(u64, Pool)>::empty());
            }
            while k < swaps.len()
                invariant
                    amount == SwapAmount::In(input0),
                    hops == hops_spec(first@, steps_view(route@)),
                    swaps@.len() == hops.len(),
                    forall|i: int| 0 <= i < hops.len() ==> swaps@[i]@ == hops[i],
                    0 <= k <= hops.len(),
                    updated@.len() == k,
                    forall|i: int| 0 <= i < k ==> updated@[i].0 == hops[i].pool_id,
                    run_route_in(store@, hops, input0) == run_route_in(
                        fold_saves(store@, updated@),
                        hops.skip(k as int),
                        cur,
                    ),
                decreases swaps@.len() - k,
            {
                let ghost m = fold_saves(store@, updated@);
                let ghost rest = hops.skip(k as int);
                proof {
                    assert(rest.len() > 0);
                    assert(rest[0] == hops[k as int]);
                }
                let sw = &swaps[k];
                let mut pool = match load_latest(store, &updated, sw.pool_id) {
                    Ok(p) => p,
                    Err(e) => {
                        return Err(e);
                    },
                };
                let payout = match pool.swap(
                    sw.denom_in.as_str(),
                    sw.denom_out.as_str(),
                    SwapAmount::In(cur),
                ) {
                    Ok(p) => p,
                    Err(e) => {
                        return Err(e);
                    },
                };
                proof {
                    lemma_swap_spec_in_gives_out(m[sw.pool_id], sw@.denom_in, sw@.denom_out, cur);
                }
                let out = match payout {
                    SwapAmount::Out(o) => o,
                    SwapAmount::In(_) => vstd::pervasive::unreached(),
                };
                let ghost upd0 = updated@;
                updated.push((sw.pool_id, pool));
                proof {
                    lemma_fold_saves_push(store@, upd0, (sw.pool_id, pool));
                    assert(rest.drop_first() =~= hops.skip(k as int + 1));
                }
                cur = out;
                k = k + 1;
            }
            proof {
                assert(hops.skip(hops.len() as int) =~= Seq::<SwapV>::empty());
            }
            Ok((SwapAmount::Out(cur), updated))
        },
        SwapAmount::Out(output0) => {
            let mut updated: Vec<(u64, Pool)> = Vec::new();
            let mut cur: u128 = output0;
            let mut k: usize = swaps.len();
            proof {
                assert(hops.take(swaps@.len() as int) =~= hops);
                assert(updated@ =~= Seq::<(u64, Pool)>::empty());
            }
            while k > 0
                invariant
                    amount == SwapAmount::Out(output0),
                    hops == hops_spec(first@, steps_view(route@)),
                    swaps@.len() == hops.len(),
                    forall|i: int| 0 <= i < hops.len() ==> swaps@[i]@ == hops[i],
                    0 <= k <= hops.len(),
                    updated@.len() == hops.len() - k,
                    forall|i: int|
                        0 <= i < updated@.len() ==> updated@[i].0 == hops[hops.len() - 1
                            - i].pool_id,
                    run_route_out(store@, hops, output0) == run_route_out(
                        fold_saves(store@, updated@),
                        hops.take(k as int),
                        cur,
                    ),
                decreases k,
            {
                k = k - 1;
                let ghost m = fold_saves(store@, updated@);
                let ghost prefix = hops.take(k as int + 1);
                proof {
                    assert(prefix.len() > 0);
                    assert(prefix.last() == hops[k as int]);
                }
                let sw = &swaps[k];
                let mut pool = match load_latest(store, &updated, sw.pool_id) {
                    Ok(p) => p,
                    Err(e) => {
                        return Err(e);
                    },
                };
                let payin = match pool.swap(
                    sw.denom_in.as_str(),
                    sw.denom_out.as_str(),
                    SwapAmount::Out(cur),
                ) {
                    Ok(p) => p,
                    Err(e) => {
                        return Err(e);
                    },
                };
                proof {
                    lemma_swap_spec_out_gives_in(m[sw.pool_id], sw@.denom_in, sw@.denom_out, cur);
                }
                let pay = match payin {
                    SwapAmount::In(v) => v,
                    SwapAmount::Out(_) => vstd::pervasive::unreached(),
                };
                let ghost upd0 = updated@;
                updated.push((sw.pool_id, pool));
                proof {
                    lemma_fold_saves_push(store@, upd0, (sw.pool_id, pool));
                    assert(prefix.drop_last() =~= hops.take(k as int));
                }
                cur = pay;
            }
            proof {
                assert(hops.take(0) =~= Seq::<SwapV>::empty());
            }
            Ok((SwapAmount::In(cur), updated))
        },
    }
}

/// Builds the ordered hop list of a route as concrete `Swap` values.
fn build_swaps(first: &Swap, route: &Vec<Step>) -> (r: Vec<Swap>)
    ensures
        r@.len() == route@.len() + 1,
        forall|i: int|
            0 <= i < r@.len() ==> r@[i]@ == hops_spec(first@, steps_view(route@))[i],
{
    let mut swaps: Vec<Swap> = Vec::new();
    swaps.push(first.clone());
    let mut i: usize = 0;
    while i < route.len()
        invariant
            i <= route@.len(),
            swaps@.len() == i + 1,
            forall|k: int|
                0 <= k <= i ==> swaps@[k]@ == hops_spec(first@, steps_view(route@))[k],
        decreases route@.len() - i,
    {
        let denom_in = if i == 0 {
            first.denom_out.clone()
        } else {
            route[i - 1].denom_out.clone()
        };
        swaps.push(Swap { pool_id: route[i].pool_id, denom_in, denom_out: route[i].denom_out.clone() });
        i = i + 1;
    }
    swaps
}

/// The venue module: the operations the host dispatches into, over an
/// explicit pool store handle.
pub struct OsmosisModule {}

/// What a committed swap settles: the response amount (the side opposite
/// the caller's exact side), the amounts the collaborator must burn and
/// credit, and their denominations.
#[derive(Debug, PartialEq, Eq)]
pub struct SwapOutcome {
    pub amount: SwapAmount,
    pub pay_in: u128,
    pub get_out: u128,
    pub denom_in: String,
    pub denom_out: String,
}

impl OsmosisModule {
    /// Stores a pool under the given id, replacing any previous pool.
    pub fn set_pool(&self, store: &mut PoolStore, pool_id: u64, pool: &Pool)
        ensures
            final(store)@ == old(store)@.insert(pool_id, pool@),
    {
        store.save(pool_id, pool.clone());
    }

    /// Routes a swap command and settles it atomically: the route is staged
    /// on pool copies; when the slippage bound holds, every staged snapshot
    /// is persisted and the outcome returned; on any failure, including a
    /// violated bound, the store is left untouched.
    pub fn execute_swap(
        &self,
        store: &mut PoolStore,
        first: Swap,
        route: Vec<Step>,
        amount: SwapAmountWithLimit,
    ) -> (r: Result<SwapOutcome, OsmosisError>)
        ensures
            ({
                let hops = hops_spec(first@, steps_view(route@));
                let run = run_route(old(store)@, hops, amount.spec_discard_limit());
                match run {
                    Err(e) => r == Err::<SwapOutcome, OsmosisError>(e) && final(store)@ == old(
                        store,
                    )@,
                    Ok(rm) => {
                        let limited = (match amount {
                            SwapAmountWithLimit::ExactIn { min_output, .. } => amount_value(rm.0)
                                < min_output,
                            SwapAmountWithLimit::ExactOut { max_input, .. } => amount_value(rm.0)
                                > max_input,
                        });
                        if limited {
                            &&& r == Err::<SwapOutcome, OsmosisError>(OsmosisError::PriceTooLow)
                            &&& final(store)@ == old(store)@
                        } else {
                            &&& final(store)@ == rm.1
                            &&& r matches Ok(o) && o.amount == rm.0 && o.denom_in@ == first@.denom_in
                                && o.denom_out@ == (if route@.len() > 0 {
                                route@[route@.len() - 1]@.denom_out
                            } else {
                                first@.denom_out
                            }) && (match amount {
                                SwapAmountWithLimit::ExactIn { input, .. } => o.pay_in == input
                                    && o.get_out == amount_value(rm.0),
                                SwapAmountWithLimit::ExactOut { output, .. } => o.pay_in
                                    == amount_value(rm.0) && o.get_out == output,
                            })
                        }
                    },
                }
            }),
    {
        let denom_in = first.denom_in.clone();
        let denom_out = if route.len() > 0 {
            route[route.len() - 1].denom_out.clone()
        } else {
            first.denom_out.clone()
        };
        let (swap_result, updated) = match complex_swap(store, first, route, amount.discard_limit()) {
            Ok(rv) => rv,
            Err(e) => {
                return Err(e);
            },
        };
        let (pay_in, get_out) = match amount {
            SwapAmountWithLimit::ExactIn { input, min_output } => {
                let out = swap_result.as_out();
                if out < min_output {
                    return Err(OsmosisError::PriceTooLow);
                }
                (input, out)
            },
            SwapAmountWithLimit::ExactOut { output, max_input } => {
                let pay = swap_result.as_in();
                if pay > max_input {
                    return Err(OsmosisError::PriceTooLow);
                }
                (pay, output)
            },
        };
        let ghost m0 = store@;
        let mut k: usize = 0;
        proof {
            assert(updated@.take(0) =~= Seq::<(u64, Pool)>::empty());
        }
        while k < updated.len()
            invariant
                0 <= k <= updated@.len(),
                store@ == fold_saves(m0, updated@.take(k as int)),
            decreases updated@.len() - k,
        {
            let id = updated[k].0;
            let pool = updated[k].1.clone();
            store.save(id, pool);
            proof {
                assert(updated@.take(k as int + 1) =~= updated@.take(k as int).push(
                    updated@[k as int],
                ));
                lemma_fold_saves_push(m0, updated@.take(k as int), updated@[k as int]);
            }
            k = k + 1;
        }
        proof {
            assert(updated@.take(updated@.len() as int) =~= updated@);
        }
        Ok(SwapOutcome { amount: swap_result, pay_in, get_out, denom_in, denom_out })
    }
}

} // verus!
