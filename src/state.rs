//! The ledger and the contract's whole state.
use vstd::prelude::*;

use crate::msg::{ContractError, ContractInfo, PreLoad, ViewerInfo};
use crate::pool::{dense, Pool};

verus! {

broadcast use vstd::std_specs::hash::group_hash_axioms;

/// Configuration and running totals.
#[derive(Debug)]
pub struct State {
    pub owner: String,
    /// items handed out so far
    pub num_minted: u16,
    /// items left in the pool
    pub total: u16,
    pub amount_paid_shill: u128,
    pub amount_paid_scrt: u128,
    /// viewing key registered with the counterparties
    pub viewing_key: Option<String>,
    pub shill_contract: ContractInfo,
    pub scrt_contract: ContractInfo,
    pub mint_contract: ContractInfo,
    /// fixed seed of the draw generator
    pub entropy_mint: String,
    pub receiving_address: String,
}

/// Everything the contract keeps: the ledger, the pool and the admin secret
/// (stored transformed), if one was set.
#[derive(Debug)]
pub struct Minter {
    pub state: State,
    pub pool: Pool,
    pub admin: Option<ViewerInfo>,
}

/// Some entry of `es` has key `k`.
pub open spec fn has_key(es: Seq<(u16, PreLoad)>, k: u16) -> bool {
    exists|i: int| 0 <= i < es.len() && #[trigger] es[i].0 == k
}

impl Minter {
    /// The pool holds exactly keys `1..=total`, the counters fit together,
    /// and a stored admin secret belongs to the owner.
    pub open spec fn wf(&self) -> bool {
        &&& dense(self.pool@, self.state.total)
        &&& self.state.num_minted + self.state.total <= u16::MAX
        &&& self.admin matches Some(v) ==> v.address@ == self.state.owner@
    }

    /// Rebuild the contract from what the host stored: `entries` are the
    /// pool's key/item pairs. Fails with `StateCorrupt` when the counters do
    /// not fit together or the admin identity is not the owner, and otherwise
    /// with `PoolCorrupt` unless the keys are exactly `1..=state.total`.
    pub fn restore(state: State, admin: Option<ViewerInfo>, entries: Vec<(u16, PreLoad)>) -> (r: Result<Minter, ContractError>)
        ensures
            r is Ok <==> (
                state.num_minted + state.total <= u16::MAX
                && (admin matches Some(v) ==> v.address@ == state.owner@)
                && forall|k: u16| #[trigger] has_key(entries@, k) <==> 1 <= k <= state.total),
            r matches Ok(m) ==> m.wf() && m.state == state && m.admin == admin
                && forall|k: u16| #[trigger] m.pool@.contains_key(k) ==>
                    exists|i: int| 0 <= i < entries@.len() && entries@[i] == (k, m.pool@[k]),
            r matches Err(e) ==> if state.num_minted + state.total <= u16::MAX
                && (admin matches Some(v) ==> v.address@ == state.owner@) {
                e == ContractError::PoolCorrupt
            } else {
                e == ContractError::StateCorrupt
            },
    {
        let ghost es = entries@;
        let fits = (state.num_minted as u32) + (state.total as u32) <= 65535;
        let mut pool = Pool::new();
        let mut in_range = true;
        let mut entries = entries;
        let mut n: usize = entries.len();
        while n > 0
            invariant
                n <= es.len(),
                entries@ == es.subrange(0, n as int),
                forall|k: u16| #[trigger] pool@.contains_key(k) <==>
                    exists|i: int| n <= i < es.len() && #[trigger] es[i].0 == k,
                forall|k: u16| #[trigger] pool@.contains_key(k) ==>
                    exists|i: int| n <= i < es.len() && es[i] == (k, pool@[k]),
                in_range <==> forall|i: int| n <= i < es.len() ==> 1 <= #[trigger] es[i].0 <= state.total,
            decreases n,
        {
            let (k, item) = entries.pop().unwrap();
            n = n - 1;
            if k < 1 || k > state.total {
                in_range = false;
            }
            let ghost before = pool@;
            let had = pool.contains(k);
            if !had {
                pool.insert(k, item);
            }
            assert(es[n as int].0 == k);
            assert(entries@ =~= es.subrange(0, n as int));
            assert forall|k2: u16| #[trigger] pool@.contains_key(k2) implies
                exists|i: int| n <= i < es.len() && es[i] == (k2, pool@[k2]) by {
                if k2 == k && !had {
                    assert(es[n as int] == (k2, pool@[k2]));
                } else {
                    assert(before.contains_key(k2));
                }
            }
        }
        let mut all_present = true;
        let mut j: u32 = 1;
        while j <= state.total as u32
            invariant
                1 <= j,
                j <= state.total + 1,
                all_present <==> forall|k: u16| 1 <= k < j ==> #[trigger] pool@.contains_key(k),
            decreases state.total + 1 - j,
        {
            if !pool.contains(j as u16) {
                all_present = false;
            }
            j = j + 1;
        }
        assert(all_present && in_range ==> forall|k: u16| #[trigger] has_key(es, k) <==> 1 <= k <= state.total) by {
            if all_present && in_range {
                assert forall|k: u16| #[trigger] has_key(es, k) <==> 1 <= k <= state.total by {
                    if 1 <= k <= state.total {
                        assert(pool@.contains_key(k));
                    }
                }
            }
        }
        assert(!(all_present && in_range) ==> !forall|k: u16| #[trigger] has_key(es, k) <==> 1 <= k <= state.total) by {
            if !in_range {
                let w = choose|i: int| 0 <= i < es.len() && !(1 <= #[trigger] es[i].0 <= state.total);
                assert(has_key(es, es[w].0));
            } else if !all_present {
                let w = choose|k: u16| 1 <= k <= state.total && !#[trigger] pool@.contains_key(k);
                assert(!has_key(es, w));
            }
        }
        let admin_ok = match &admin {
            Some(v) => v.address == state.owner,
            None => true,
        };
        if !fits || !admin_ok {
            Err(ContractError::StateCorrupt)
        } else if in_range && all_present {
            Ok(Minter { state, pool, admin })
        } else {
            Err(ContractError::PoolCorrupt)
        }
    }
}

} // verus!
