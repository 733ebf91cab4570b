//! Tiered byte quotas per client. Deposits are counted in micro-units: one
//! unit of the payment asset is `MICROS_PER_UNIT` micro-units.
use vstd::prelude::*;

use crate::table::StringTable;

verus! {

/// Micro-units in one unit of the payment asset.
pub const MICROS_PER_UNIT: u64 = 1_000_000;

#[derive(Debug, Clone, Copy, PartialEq, Eq, Structural)]
pub enum QuotaTier {
    Free,
    Developer,
    Professional,
    Enterprise,
}

impl QuotaTier {
    pub open spec fn spec_max_filters(self) -> nat {
        match self {
            QuotaTier::Free => 1,
            QuotaTier::Developer => 5,
            QuotaTier::Professional => 20,
            QuotaTier::Enterprise => 100,
        }
    }

    pub open spec fn spec_max_per_filter(self) -> nat {
        match self {
            QuotaTier::Free => 10,
            QuotaTier::Developer => 100,
            QuotaTier::Professional => 1000,
            QuotaTier::Enterprise => 10000,
        }
    }

    pub open spec fn spec_bytes_per_cash(self) -> nat {
        match self {
            QuotaTier::Free => 1_000_000,
            QuotaTier::Developer => 1_000_000,
            QuotaTier::Professional => 1_000_000,
            QuotaTier::Enterprise => 1_000_000,
        }
    }

    pub fn max_filters(&self) -> (r: usize)
        ensures
            r == self.spec_max_filters(),
    {
        match self {
            QuotaTier::Free => 1,
            QuotaTier::Developer => 5,
            QuotaTier::Professional => 20,
            QuotaTier::Enterprise => 100,
        }
    }

    pub fn max_accounts_per_filter(&self) -> (r: usize)
        ensures
            r == self.spec_max_per_filter(),
    {
        match self {
            QuotaTier::Free => 10,
            QuotaTier::Developer => 100,
            QuotaTier::Professional => 1000,
            QuotaTier::Enterprise => 10000,
        }
    }

    pub fn max_transactions_per_filter(&self) -> (r: usize)
        ensures
            r == self.spec_max_per_filter(),
    {
        match self {
            QuotaTier::Free => 10,
            QuotaTier::Developer => 100,
            QuotaTier::Professional => 1000,
            QuotaTier::Enterprise => 10000,
        }
    }

    /// Bytes granted per unit of deposit.
    pub fn bytes_per_cash(&self) -> (r: usize)
        ensures
            r == self.spec_bytes_per_cash(),
    {
        match self {
            QuotaTier::Free => 1_000_000,
            QuotaTier::Developer => 1_000_000,
            QuotaTier::Professional => 1_000_000,
            QuotaTier::Enterprise => 1_000_000,
        }
    }
}

/// The tier a deposit buys, by thresholds inclusive at the lower bound:
/// 10 units and more Enterprise, from 1 Professional, from 0.1 Developer,
/// else Free.
pub open spec fn tier_for(amount: nat) -> QuotaTier {
    if amount >= 10_000_000 {
        QuotaTier::Enterprise
    } else if amount >= 1_000_000 {
        QuotaTier::Professional
    } else if amount >= 100_000 {
        QuotaTier::Developer
    } else {
        QuotaTier::Free
    }
}

/// The tier for a deposit of `amount` micro-units.
pub fn determine_tier(amount: u64) -> (r: QuotaTier)
    ensures
        r == tier_for(amount as nat),
{
    if amount >= 10_000_000 {
        QuotaTier::Enterprise
    } else if amount >= 1_000_000 {
        QuotaTier::Professional
    } else if amount >= 100_000 {
        QuotaTier::Developer
    } else {
        QuotaTier::Free
    }
}

/// The bytes a deposit of `amount` micro-units buys in `tier`:
/// `floor(amount / MICROS_PER_UNIT * bytes_per_cash)`.
pub open spec fn deposit_bytes(amount: nat, tier: QuotaTier) -> nat {
    (amount * tier.spec_bytes_per_cash()) / (MICROS_PER_UNIT as nat)
}

/// What a refund of `remaining` bytes gives back, in micro-units:
/// `floor(remaining / bytes_per_cash * MICROS_PER_UNIT)`.
pub open spec fn refund_micros(remaining: nat, tier: QuotaTier) -> nat {
    (remaining * (MICROS_PER_UNIT as nat)) / tier.spec_bytes_per_cash()
}

fn compute_deposit_bytes(amount: u64, tier: QuotaTier) -> (r: u128)
    ensures
        r == deposit_bytes(amount as nat, tier),
{
    let bpc = tier.bytes_per_cash() as u128;
    assert(amount as u128 * bpc <= u64::MAX as u128 * 1_000_000) by (nonlinear_arith)
        requires
            bpc <= 1_000_000,
    ;
    (amount as u128 * bpc) / (MICROS_PER_UNIT as u128)
}

#[derive(Debug, Clone, Copy, PartialEq, Eq, Structural)]
pub struct QuotaUsage {
    pub tier: QuotaTier,
    pub total_bytes: usize,
    pub used_bytes: usize,
    pub remaining_bytes: usize,
    /// Micro-units deposited.
    pub deposit_amount: u64,
    pub started_at: i64,
    pub last_update: i64,
}

/// Used and remaining bytes add up to the total.
pub open spec fn balanced(u: QuotaUsage) -> bool {
    u.used_bytes + u.remaining_bytes == u.total_bytes
}

/// A fresh record for a deposit.
pub open spec fn initial_usage(tier: QuotaTier, deposit: nat, now: int) -> QuotaUsage {
    QuotaUsage {
        tier,
        total_bytes: deposit_bytes(deposit, tier) as usize,
        used_bytes: 0,
        remaining_bytes: deposit_bytes(deposit, tier) as usize,
        deposit_amount: deposit as u64,
        started_at: now as i64,
        last_update: now as i64,
    }
}

/// A record after `size` bytes are consumed: used grows by `size`,
/// remaining shrinks by it but not below zero.
pub open spec fn consumed(u: QuotaUsage, size: nat, now: int) -> QuotaUsage {
    QuotaUsage {
        used_bytes: (u.used_bytes + size) as usize,
        remaining_bytes: if u.remaining_bytes >= size {
            (u.remaining_bytes - size) as usize
        } else {
            0
        },
        last_update: now as i64,
        ..u
    }
}

/// A record after an atomic check-and-consume of `size` bytes: consumed
/// when enough remains, else unchanged.
pub open spec fn checked_consume(u: QuotaUsage, size: nat, now: int) -> QuotaUsage {
    if u.remaining_bytes >= size {
        consumed(u, size, now)
    } else {
        u
    }
}

/// A record after a top-up of `additional` micro-units.
pub open spec fn topped_up(u: QuotaUsage, additional: nat, now: int) -> QuotaUsage {
    QuotaUsage {
        total_bytes: (u.total_bytes + deposit_bytes(additional, u.tier)) as usize,
        remaining_bytes: (u.remaining_bytes + deposit_bytes(additional, u.tier)) as usize,
        deposit_amount: (u.deposit_amount + additional) as u64,
        last_update: now as i64,
        ..u
    }
}

/// Whether `client` has at least `size` bytes left; no record means no quota.
pub open spec fn quota_available(m: Map<Seq<char>, QuotaUsage>, client: Seq<char>, size: nat) -> bool {
    m.contains_key(client) && m[client].remaining_bytes >= size
}

/// A record after a sequence of check-and-consume calls, in order.
pub open spec fn after_checks(u: QuotaUsage, steps: Seq<(usize, i64)>) -> QuotaUsage
    decreases steps.len(),
{
    if steps.len() == 0 {
        u
    } else {
        checked_consume(
            after_checks(u, steps.drop_last()),
            steps.last().0 as nat,
            steps.last().1 as int,
        )
    }
}

/// Check-and-consume never overcommits: whatever sizes are requested, and
/// in whatever order concurrent requests are serialised, a balanced record
/// stays balanced, so used bytes never exceed total bytes.
pub proof fn lemma_checks_never_overcommit(u: QuotaUsage, steps: Seq<(usize, i64)>)
    requires
        balanced(u),
    ensures
        balanced(after_checks(u, steps)),
        after_checks(u, steps).used_bytes <= after_checks(u, steps).total_bytes,
        after_checks(u, steps).total_bytes == u.total_bytes,
    decreases steps.len(),
{
    if steps.len() > 0 {
        lemma_checks_never_overcommit(u, steps.drop_last());
    }
}

/// After a refund the client has no record, so no request for any size is
/// within quota.
pub proof fn lemma_refund_leaves_no_quota(
    m: Map<Seq<char>, QuotaUsage>,
    client: Seq<char>,
    size: nat,
)
    ensures
        !quota_available(m.remove(client), client, size),
{
}

/// The quota records of all clients.
pub struct QuotaManager {
    quotas: StringTable<QuotaUsage>,
}

impl View for QuotaManager {
    type V = Map<Seq<char>, QuotaUsage>;

    closed spec fn view(&self) -> Map<Seq<char>, QuotaUsage> {
        self.quotas@
    }
}

impl QuotaManager {
    pub closed spec fn wf(&self) -> bool {
        self.quotas.wf()
    }

    pub fn new() -> (r: QuotaManager)
        ensures
            r.wf(),
            r@ == Map::<Seq<char>, QuotaUsage>::empty(),
    {
        QuotaManager { quotas: StringTable::new() }
    }

    /// Creates, or replaces, the record for `client_id`: the deposit of
    /// `deposit` micro-units buys its bytes in `tier`; nothing is used yet.
    pub fn initialize_quota(&mut self, client_id: &str, tier: QuotaTier, deposit: u64, now: i64)
        requires
            old(self).wf(),
            deposit_bytes(deposit as nat, tier) <= usize::MAX,
        ensures
            final(self).wf(),
            final(self)@ == old(self)@.insert(
                client_id@,
                initial_usage(tier, deposit as nat, now as int),
            ),
    {
        let total_bytes = compute_deposit_bytes(deposit, tier) as usize;
        let usage = QuotaUsage {
            tier,
            total_bytes,
            used_bytes: 0,
            remaining_bytes: total_bytes,
            deposit_amount: deposit,
            started_at: now,
            last_update: now,
        };
        self.quotas.set(client_id, usage);
    }

    pub fn has_quota(&self, client_id: &str, data_size: usize) -> (r: bool)
        requires
            self.wf(),
        ensures
            r == quota_available(self@, client_id@, data_size as nat),
    {
        match self.quotas.get(client_id) {
            Some(usage) => usage.remaining_bytes >= data_size,
            None => false,
        }
    }

    /// Records `data_size` bytes as used; remaining bytes shrink but never
    /// below zero. Nothing happens for a client without a record.
    pub fn consume_quota(&mut self, client_id: &str, data_size: usize, now: i64)
        requires
            old(self).wf(),
            old(self)@.contains_key(client_id@) ==> old(self)@[client_id@].used_bytes + data_size
                <= usize::MAX,
        ensures
            final(self).wf(),
            old(self)@.contains_key(client_id@) ==> final(self)@ == old(self)@.insert(
                client_id@,
                consumed(old(self)@[client_id@], data_size as nat, now as int),
            ),
            old(self)@.contains_key(client_id@) && data_size > old(self)@[client_id@].remaining_bytes
                ==> final(self)@[client_id@].remaining_bytes == 0,
            !old(self)@.contains_key(client_id@) ==> final(self)@ == old(self)@,
    {
        let current = match self.quotas.get(client_id) {
            Some(u) => *u,
            None => return,
        };
        let remaining = if current.remaining_bytes >= data_size {
            current.remaining_bytes - data_size
        } else {
            0
        };
        let usage = QuotaUsage {
            used_bytes: current.used_bytes + data_size,
            remaining_bytes: remaining,
            last_update: now,
            ..current
        };
        self.quotas.set(client_id, usage);
    }

    /// Atomically checks and consumes: when at least `data_size` bytes
    /// remain they are consumed and `Ok` is returned; otherwise nothing
    /// changes and the remaining byte count is returned as the error.
    pub fn check_and_consume(&mut self, client_id: &str, data_size: usize, now: i64) -> (r: Result<
        (),
        usize,
    >)
        requires
            old(self).wf(),
            quota_available(old(self)@, client_id@, data_size as nat) ==> old(self)@[client_id@].used_bytes
                + data_size <= usize::MAX,
        ensures
            final(self).wf(),
            quota_available(old(self)@, client_id@, data_size as nat) ==> r is Ok && final(self)@
                == old(self)@.insert(
                client_id@,
                checked_consume(old(self)@[client_id@], data_size as nat, now as int),
            ),
            !quota_available(old(self)@, client_id@, data_size as nat) ==> final(self)@ == old(
                self,
            )@ && r == Err::<(), usize>(
                if old(self)@.contains_key(client_id@) {
                    old(self)@[client_id@].remaining_bytes
                } else {
                    0
                },
            ),
    {
        if !self.has_quota(client_id, data_size) {
            return Err(self.get_remaining(client_id));
        }
        self.consume_quota(client_id, data_size, now);
        Ok(())
    }

    pub fn get_remaining(&self, client_id: &str) -> (r: usize)
        requires
            self.wf(),
        ensures
            r == if self@.contains_key(client_id@) {
                self@[client_id@].remaining_bytes
            } else {
                0
            },
    {
        match self.quotas.get(client_id) {
            Some(u) => u.remaining_bytes,
            None => 0,
        }
    }

    pub fn get_usage(&self, client_id: &str) -> (r: Option<QuotaUsage>)
        requires
            self.wf(),
        ensures
            match r {
                Some(u) => self@.contains_key(client_id@) && self@[client_id@] == u,
                None => !self@.contains_key(client_id@),
            },
    {
        match self.quotas.get(client_id) {
            Some(u) => Some(*u),
            None => None,
        }
    }

    /// Adds the bytes that `additional_deposit` micro-units buy to the total
    /// and the remaining bytes, and accumulates the deposit.
    pub fn top_up(&mut self, client_id: &str, additional_deposit: u64, now: i64)
        requires
            old(self).wf(),
            old(self)@.contains_key(client_id@) ==> {
                let u = old(self)@[client_id@];
                &&& u.total_bytes + deposit_bytes(additional_deposit as nat, u.tier) <= usize::MAX
                &&& u.remaining_bytes + deposit_bytes(additional_deposit as nat, u.tier)
                    <= usize::MAX
                &&& u.deposit_amount + additional_deposit <= u64::MAX
            },
        ensures
            final(self).wf(),
            old(self)@.contains_key(client_id@) ==> final(self)@ == old(self)@.insert(
                client_id@,
                topped_up(old(self)@[client_id@], additional_deposit as nat, now as int),
            ),
            !old(self)@.contains_key(client_id@) ==> final(self)@ == old(self)@,
    {
        let current = match self.quotas.get(client_id) {
            Some(u) => *u,
            None => return,
        };
        let additional_bytes = compute_deposit_bytes(additional_deposit, current.tier) as usize;
        let usage = QuotaUsage {
            total_bytes: current.total_bytes + additional_bytes,
            remaining_bytes: current.remaining_bytes + additional_bytes,
            deposit_amount: current.deposit_amount + additional_deposit,
            last_update: now,
            ..current
        };
        self.quotas.set(client_id, usage);
    }

    /// Removes the record and returns the unspent deposit in micro-units:
    /// the remaining bytes divided by the tier's bytes per unit. Without a
    /// record, nothing is returned.
    pub fn refund(&mut self, client_id: &str) -> (r: u64)
        requires
            old(self).wf(),
        ensures
            final(self).wf(),
            final(self)@ == old(self)@.remove(client_id@),
            r == if old(self)@.contains_key(client_id@) {
                refund_micros(
                    old(self)@[client_id@].remaining_bytes as nat,
                    old(self)@[client_id@].tier,
                )
            } else {
                0
            },
    {
        match self.quotas.remove(client_id) {
            Some(usage) => {
                let bpc = usage.tier.bytes_per_cash() as u128;
                let remaining = usage.remaining_bytes as u128;
                assert(remaining * 1_000_000 <= u64::MAX as u128 * 1_000_000) by (nonlinear_arith)
                    requires
                        remaining <= u64::MAX,
                ;
                let amount = (remaining * (MICROS_PER_UNIT as u128)) / bpc;
                assert(amount <= remaining);
                amount as u64
            },
            None => 0,
        }
    }

    /// Whether the client's tier allows `num_filters` filters; no record
    /// allows none.
    pub fn check_filter_limits(&self, client_id: &str, num_filters: usize) -> (r: bool)
        requires
            self.wf(),
        ensures
            r == (self@.contains_key(client_id@) && num_filters
                <= self@[client_id@].tier.spec_max_filters()),
    {
        match self.quotas.get(client_id) {
            Some(usage) => num_filters <= usage.tier.max_filters(),
            None => false,
        }
    }
}

} // verus!
