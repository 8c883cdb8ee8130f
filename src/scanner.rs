//! Gap-limit discovery over one derivation chain.
//!
//! The walk is a state machine: `next_query` names the index whose address is
//! to be looked up next, and `record` takes the lookup's answer. The caller
//! performs the lookups, one at a time, in index order.
use vstd::prelude::*;

verus! {

/// Consecutive unused addresses after which a chain is considered exhausted.
pub const GAP_LIMIT: u32 = 20;

/// The walk stops once the next index would exceed this ceiling.
pub const MAX_SCAN_INDEX: u32 = 1000;

/// Activity of one address as reported by the chain indexer.
#[derive(Debug, Clone)]
pub struct AddressStats {
    pub address: String,
    pub balance_sats: u64,
    pub tx_count: u64,
}

impl AddressStats {
    /// Stats from the indexer's confirmed totals; the balance is what was
    /// funded less what was spent, and never below zero.
    pub fn from_chain_stats(address: String, funded_sats: u64, spent_sats: u64, tx_count: u64) -> (r: AddressStats)
        ensures
            r.address@ == address@,
            r.tx_count == tx_count,
            r.balance_sats == if funded_sats >= spent_sats { (funded_sats - spent_sats) as u64 } else { 0u64 },
    {
        AddressStats { address, balance_sats: funded_sats.saturating_sub(spent_sats), tx_count }
    }
}

/// Counters of a walk in progress.
#[derive(Debug, Clone, Copy, PartialEq, Eq, Structural)]
pub struct ScanProgress {
    /// The index whose address is looked up next.
    pub next_index: u32,
    /// How many addresses in a row, up to the last one looked up, were unused.
    pub consecutive_empty: u32,
    /// Sum of the balances of the used addresses seen so far.
    pub total_sats: u128,
}

/// The state before any lookup.
pub open spec fn scan_start() -> ScanProgress {
    ScanProgress { next_index: 0, consecutive_empty: 0, total_sats: 0 }
}

/// Whether the walk is over: a full gap of unused addresses, or the ceiling.
pub open spec fn scan_finished(p: ScanProgress) -> bool {
    p.consecutive_empty >= GAP_LIMIT || p.next_index > MAX_SCAN_INDEX
}

/// The counters after the lookup of `p.next_index` reported `tx_count` and
/// `balance`.
pub open spec fn scan_advance(p: ScanProgress, tx_count: u64, balance: u64) -> ScanProgress {
    if tx_count > 0 {
        ScanProgress {
            next_index: (p.next_index + 1) as u32,
            consecutive_empty: 0,
            total_sats: (p.total_sats + balance) as u128,
        }
    } else {
        ScanProgress {
            next_index: (p.next_index + 1) as u32,
            consecutive_empty: (p.consecutive_empty + 1) as u32,
            total_sats: p.total_sats,
        }
    }
}

/// Counters that a walk from the start can reach.
pub open spec fn progress_wf(p: ScanProgress) -> bool {
    &&& p.next_index <= MAX_SCAN_INDEX + 1
    &&& p.consecutive_empty <= p.next_index
    &&& p.consecutive_empty <= GAP_LIMIT
    &&& p.total_sats <= p.next_index * 0xFFFF_FFFF_FFFF_FFFFu64
}

/// The counters after `n` lookups, where `activity(i)` is the (transaction
/// count, balance) reported for index `i`; a finished walk stays as it is.
pub open spec fn scan_run(activity: spec_fn(u32) -> (u64, u64), n: nat) -> ScanProgress
    decreases n,
{
    if n == 0 {
        scan_start()
    } else {
        let p = scan_run(activity, (n - 1) as nat);
        if scan_finished(p) {
            p
        } else {
            scan_advance(p, activity(p.next_index).0, activity(p.next_index).1)
        }
    }
}

/// A gap-limit walk over one chain.
pub struct GapScan {
    progress: ScanProgress,
    used: Vec<String>,
}

impl GapScan {
    /// The counters of the walk.
    pub closed spec fn progress_view(&self) -> ScanProgress {
        self.progress
    }

    /// The addresses found used so far, in index order.
    pub closed spec fn used_view(&self) -> Seq<Seq<char>> {
        self.used@.map_values(|a: String| a@)
    }

    pub closed spec fn wf(&self) -> bool {
        progress_wf(self.progress)
    }

    /// A walk that has looked nothing up.
    pub fn new() -> (r: GapScan)
        ensures
            r.wf(),
            r.progress_view() == scan_start(),
            r.used_view() == Seq::<Seq<char>>::empty(),
    {
        let r = GapScan { progress: ScanProgress { next_index: 0, consecutive_empty: 0, total_sats: 0 }, used: Vec::new() };
        assert(r.used_view() =~= Seq::<Seq<char>>::empty());
        r
    }

    /// The index to look up next, or `None` once the walk is over.
    pub fn next_query(&self) -> (r: Option<u32>)
        requires
            self.wf(),
        ensures
            scan_finished(self.progress_view()) ==> r is None,
            !scan_finished(self.progress_view()) ==> r == Some(self.progress_view().next_index),
    {
        if self.progress.consecutive_empty >= GAP_LIMIT || self.progress.next_index > MAX_SCAN_INDEX {
            None
        } else {
            Some(self.progress.next_index)
        }
    }

    /// Whether the walk is over.
    pub fn is_finished(&self) -> (r: bool)
        ensures
            r == scan_finished(self.progress_view()),
    {
        self.progress.consecutive_empty >= GAP_LIMIT || self.progress.next_index > MAX_SCAN_INDEX
    }

    /// Takes the answer of the lookup of the address at `next_query`.
    pub fn record(&mut self, stats: &AddressStats)
        requires
            old(self).wf(),
            !scan_finished(old(self).progress_view()),
        ensures
            final(self).wf(),
            final(self).progress_view() == scan_advance(old(self).progress_view(), stats.tx_count, stats.balance_sats),
            final(self).used_view() == if stats.tx_count > 0 {
                old(self).used_view().push(stats.address@)
            } else {
                old(self).used_view()
            },
    {
        let p = self.progress;
        assert(p.total_sats + stats.balance_sats <= (p.next_index + 1) * 0xFFFF_FFFF_FFFF_FFFFu64) by (nonlinear_arith)
            requires
                p.total_sats <= p.next_index * 0xFFFF_FFFF_FFFF_FFFFu64,
                stats.balance_sats <= 0xFFFF_FFFF_FFFF_FFFFu64,
        ;
        assert((p.next_index + 1) * 0xFFFF_FFFF_FFFF_FFFFu64 <= 1001 * 0xFFFF_FFFF_FFFF_FFFFu64) by (nonlinear_arith)
            requires
                p.next_index <= 1000,
        ;
        if stats.tx_count > 0 {
            self.progress = ScanProgress {
                next_index: p.next_index + 1,
                consecutive_empty: 0,
                total_sats: p.total_sats + stats.balance_sats as u128,
            };
            let ghost before = self.used@;
            self.used.push(stats.address.clone());
            assert(self.used@.map_values(|a: String| a@) =~= before.map_values(|a: String| a@).push(stats.address@));
        } else {
            self.progress = ScanProgress {
                next_index: p.next_index + 1,
                consecutive_empty: p.consecutive_empty + 1,
                total_sats: p.total_sats,
            };
        }
    }

    /// Sum of the balances of the used addresses found.
    pub fn total_sats(&self) -> (r: u128)
        ensures
            r == self.progress_view().total_sats,
    {
        self.progress.total_sats
    }

    /// The counters of the walk.
    pub fn progress(&self) -> (r: ScanProgress)
        ensures
            r == self.progress_view(),
    {
        self.progress
    }

    /// The used addresses found, in index order.
    pub fn used_addresses(&self) -> (r: &Vec<String>)
        ensures
            r@.map_values(|a: String| a@) == self.used_view(),
    {
        &self.used
    }
}

/// A chain on which no address was ever used is given up after exactly
/// `GAP_LIMIT` lookups, with a total of zero: the walk is still going after
/// each of the first `GAP_LIMIT - 1` lookups and is over after the last one.
pub proof fn lemma_idle_chain_stops_at_gap_limit(activity: spec_fn(u32) -> (u64, u64))
    requires
        forall|i: u32| (#[trigger] activity(i)).0 == 0,
    ensures
        forall|n: nat| n < GAP_LIMIT ==> !scan_finished(#[trigger] scan_run(activity, n)),
        scan_finished(scan_run(activity, GAP_LIMIT as nat)),
        scan_run(activity, GAP_LIMIT as nat)
            == (ScanProgress { next_index: GAP_LIMIT, consecutive_empty: GAP_LIMIT, total_sats: 0 }),
{
    assert forall|n: nat| n <= GAP_LIMIT implies #[trigger] scan_run(activity, n)
        == (ScanProgress { next_index: n as u32, consecutive_empty: n as u32, total_sats: 0 }) by {
        lemma_idle_run(activity, n);
    }
    assert(scan_run(activity, GAP_LIMIT as nat)
        == (ScanProgress { next_index: GAP_LIMIT, consecutive_empty: GAP_LIMIT, total_sats: 0 }));
}

proof fn lemma_idle_run(activity: spec_fn(u32) -> (u64, u64), n: nat)
    requires
        forall|i: u32| (#[trigger] activity(i)).0 == 0,
        n <= GAP_LIMIT,
    ensures
        scan_run(activity, n) == (ScanProgress { next_index: n as u32, consecutive_empty: n as u32, total_sats: 0 }),
    decreases n,
{
    if n > 0 {
        lemma_idle_run(activity, (n - 1) as nat);
        let p = scan_run(activity, (n - 1) as nat);
        assert(activity(p.next_index).0 == 0);
    }
}

/// Every walk is over after at most `MAX_SCAN_INDEX + 2` lookups, whatever the
/// indexer reports.
pub proof fn lemma_walk_terminates(activity: spec_fn(u32) -> (u64, u64))
    ensures
        scan_finished(scan_run(activity, MAX_SCAN_INDEX as nat + 2)),
{
    lemma_run_index(activity, MAX_SCAN_INDEX as nat + 2);
}

proof fn lemma_run_index(activity: spec_fn(u32) -> (u64, u64), n: nat)
    requires
        n <= MAX_SCAN_INDEX + 2,
    ensures
        scan_finished(scan_run(activity, n)) || scan_run(activity, n).next_index == n,
    decreases n,
{
    if n > 0 {
        lemma_run_index(activity, (n - 1) as nat);
    }
}

} // verus!
