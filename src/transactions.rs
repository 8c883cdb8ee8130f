//! Transactions seen from one key: the net amount of a raw transaction for an
//! owned address, the merging of observations that share a transaction id,
//! and the most-recent-first ordering.
use vstd::prelude::*;
use vstd::multiset::Multiset;
use crate::text::text_eq;
use crate::ErrorKind;

verus! {

broadcast use vstd::seq_lib::group_to_multiset_ensures;

/// A transaction output as reported by the indexer (for an input: the output
/// it spends).
#[derive(Debug, Clone)]
pub struct TxOutput {
    pub address: Option<String>,
    pub value_sats: i64,
}

/// A transaction as reported by the indexer.
#[derive(Debug, Clone)]
pub struct RawTransaction {
    pub txid: String,
    pub fee_sats: u64,
    pub confirmed: bool,
    pub block_height: Option<u64>,
    pub block_time: Option<u64>,
    /// The outputs spent by the inputs, in input order.
    pub spent: Vec<TxOutput>,
    /// The outputs created, in output order.
    pub outputs: Vec<TxOutput>,
}

/// A transaction with its amount relative to the owning key.
#[derive(Debug, Clone)]
pub struct Transaction {
    pub txid: String,
    /// Positive when received, negative when sent.
    pub amount_sats: i64,
    pub fee_sats: u64,
    pub confirmed: bool,
    pub block_height: Option<u64>,
    pub timestamp: Option<u64>,
}

/// Whether output `o` pays to `addr`.
pub open spec fn pays_to(o: TxOutput, addr: Seq<char>) -> bool {
    o.address is Some && o.address->0@ == addr
}

/// Sum of the values of the outputs in `outs` that pay to `addr`.
pub open spec fn paid_to(outs: Seq<TxOutput>, addr: Seq<char>) -> int
    decreases outs.len(),
{
    if outs.len() == 0 {
        0
    } else {
        paid_to(outs.drop_last(), addr) + if pays_to(outs.last(), addr) {
            outs.last().value_sats as int
        } else {
            0
        }
    }
}

/// What `raw` moves to (positive) or from (negative) address `addr`.
pub open spec fn net_for(raw: RawTransaction, addr: Seq<char>) -> int {
    paid_to(raw.outputs@, addr) - paid_to(raw.spent@, addr)
}

/// Whether `x` fits an `i64`.
pub open spec fn fits_i64(x: int) -> bool {
    i64::MIN <= x <= i64::MAX
}

/// Sum of the values of the outputs in `outs` that pay to `addr`.
fn sum_paid_to(outs: &Vec<TxOutput>, addr: &str) -> (r: i128)
    ensures
        r == paid_to(outs@, addr@),
        -(outs@.len() as int) * 0x8000_0000_0000_0000 <= r <= (outs@.len() as int) * 0x8000_0000_0000_0000,
{
    let mut sum: i128 = 0;
    let mut i: usize = 0;
    while i < outs.len()
        invariant
            i <= outs@.len(),
            sum == paid_to(outs@.subrange(0, i as int), addr@),
            -(i as int) * 0x8000_0000_0000_0000 <= sum <= (i as int) * 0x8000_0000_0000_0000,
        decreases outs@.len() - i,
    {
        let o = &outs[i];
        assert(outs@.subrange(0, i + 1).drop_last() =~= outs@.subrange(0, i as int));
        let owned = match &o.address {
            Some(a) => text_eq(a.as_str(), addr),
            None => false,
        };
        assert((i as int) < 0x1_0000_0000_0000_0000);
        assert((i as int + 1) * 0x8000_0000_0000_0000 <= 0x1_0000_0000_0000_0000 * 0x8000_0000_0000_0000) by (nonlinear_arith)
            requires
                (i as int) < 0x1_0000_0000_0000_0000,
        ;
        if owned {
            sum = sum + o.value_sats as i128;
        }
        i = i + 1;
    }
    assert(outs@.subrange(0, outs@.len() as int) =~= outs@);
    sum
}

/// The transaction as seen from `address`, or `None` where its net amount does
/// not fit an `i64`.
pub open spec fn view_for(raw: RawTransaction, addr: Seq<char>) -> Option<Transaction> {
    if fits_i64(net_for(raw, addr)) {
        Some(Transaction {
            txid: raw.txid,
            amount_sats: net_for(raw, addr) as i64,
            fee_sats: raw.fee_sats,
            confirmed: raw.confirmed,
            block_height: raw.block_height,
            timestamp: raw.block_time,
        })
    } else {
        None
    }
}

/// The transaction with its amount relative to `address`: what it pays to the
/// address less what it spends from it.
pub fn transaction_for_address(raw: &RawTransaction, address: &str) -> (r: Result<Transaction, ErrorKind>)
    ensures
        view_for(*raw, address@) is Some ==> r == Ok::<Transaction, ErrorKind>(view_for(*raw, address@)->0),
        view_for(*raw, address@) is None ==> r is Err && r->Err_0 is RemoteFailure,
{
    let received = sum_paid_to(&raw.outputs, address);
    let sent = sum_paid_to(&raw.spent, address);
    let net = match received.checked_sub(sent) {
        Some(n) => n,
        None => return Err(ErrorKind::RemoteFailure(String::from_str("transaction amount out of range"))),
    };
    if net < i64::MIN as i128 || net > i64::MAX as i128 {
        return Err(ErrorKind::RemoteFailure(String::from_str("transaction amount out of range")));
    }
    Ok(Transaction {
        txid: raw.txid.clone(),
        amount_sats: net as i64,
        fee_sats: raw.fee_sats,
        confirmed: raw.confirmed,
        block_height: raw.block_height,
        timestamp: raw.block_time,
    })
}

/// Whether two transactions carry the same id.
pub open spec fn same_id(a: Transaction, b: Transaction) -> bool {
    a.txid@ == b.txid@
}

/// No two entries share a transaction id.
pub open spec fn ids_unique(s: Seq<Transaction>) -> bool {
    forall|i: int, j: int| 0 <= i < s.len() && 0 <= j < s.len() && i != j ==> !same_id(#[trigger] s[i], #[trigger] s[j])
}

/// `t` with `extra` added to its amount; its other fields are kept.
pub open spec fn with_added_amount(t: Transaction, extra: i64) -> Transaction {
    Transaction { amount_sats: (t.amount_sats + extra) as i64, ..t }
}

/// The merged list after observation `t`: a new id is appended; a known id has
/// the amounts summed, keeping the first observation's other fields; `None`
/// where the sum does not fit an `i64`.
pub open spec fn merge_one(s: Seq<Transaction>, t: Transaction) -> Option<Seq<Transaction>> {
    if exists|j: int| 0 <= j < s.len() && same_id(#[trigger] s[j], t) {
        let j = choose|j: int| 0 <= j < s.len() && same_id(#[trigger] s[j], t);
        if fits_i64(s[j].amount_sats + t.amount_sats) {
            Some(s.update(j, with_added_amount(s[j], t.amount_sats)))
        } else {
            None
        }
    } else {
        Some(s.push(t))
    }
}

/// Transactions gathered from the used addresses of one key, one entry per
/// transaction id, in order of first observation.
pub struct TxAggregator {
    txs: Vec<Transaction>,
}

impl TxAggregator {
    /// The entries gathered so far.
    pub closed spec fn view(&self) -> Seq<Transaction> {
        self.txs@
    }

    pub closed spec fn wf(&self) -> bool {
        ids_unique(self.txs@)
    }

    /// An aggregator with no entries.
    pub fn new() -> (r: TxAggregator)
        ensures
            r.wf(),
            r.view() == Seq::<Transaction>::empty(),
    {
        TxAggregator { txs: Vec::new() }
    }

    /// The number of distinct transactions gathered.
    pub fn len(&self) -> (r: usize)
        ensures
            r == self.view().len(),
    {
        self.txs.len()
    }

    /// Adds one observation of a transaction; see `merge_one`. On failure the
    /// entries are left as they were.
    pub fn merge(&mut self, tx: Transaction) -> (r: Result<(), ErrorKind>)
        requires
            old(self).wf(),
        ensures
            final(self).wf(),
            merge_one(old(self).view(), tx) is Some ==> r is Ok && final(self).view() == merge_one(old(self).view(), tx)->0,
            merge_one(old(self).view(), tx) is None ==> r is Err && r->Err_0 is RemoteFailure && final(self).view() == old(self).view(),
    {
        let mut j: usize = 0;
        while j < self.txs.len()
            invariant
                self.txs@ == old(self).txs@,
                ids_unique(self.txs@),
                j <= self.txs@.len(),
                forall|k: int| 0 <= k < j ==> !same_id(#[trigger] self.txs@[k], tx),
            decreases self.txs@.len() - j,
        {
            if self.txs[j].txid == tx.txid {
                let ghost s = self.txs@;
                assert(same_id(s[j as int], tx));
                let ghost chosen = choose|k: int| 0 <= k < s.len() && same_id(#[trigger] s[k], tx);
                assert(chosen == j) by {
                    if chosen != j {
                        assert(!same_id(s[chosen], s[j as int]));
                    }
                }
                let sum = match self.txs[j].amount_sats.checked_add(tx.amount_sats) {
                    Some(v) => v,
                    None => return Err(ErrorKind::RemoteFailure(String::from_str("transaction amount out of range"))),
                };
                let old_t = &self.txs[j];
                let merged = Transaction {
                    txid: old_t.txid.clone(),
                    amount_sats: sum,
                    fee_sats: old_t.fee_sats,
                    confirmed: old_t.confirmed,
                    block_height: old_t.block_height,
                    timestamp: old_t.timestamp,
                };
                self.txs.set(j, merged);
                assert(self.txs@ =~= s.update(j as int, with_added_amount(s[j as int], tx.amount_sats)));
                assert forall|a: int, b: int| 0 <= a < self.txs@.len() && 0 <= b < self.txs@.len() && a != b
                    implies !same_id(#[trigger] self.txs@[a], #[trigger] self.txs@[b]) by {
                    assert(!same_id(s[a], s[b]));
                }
                return Ok(());
            }
            j = j + 1;
        }
        let ghost s = self.txs@;
        self.txs.push(tx);
        assert forall|a: int, b: int| 0 <= a < self.txs@.len() && 0 <= b < self.txs@.len() && a != b
            implies !same_id(#[trigger] self.txs@[a], #[trigger] self.txs@[b]) by {
            if a < s.len() && b < s.len() {
                assert(!same_id(s[a], s[b]));
            }
        }
        Ok(())
    }

    /// Adds the transactions of one used address, each taken relative to that
    /// address, in the order given; stops at the first failure.
    pub fn add_address_transactions(&mut self, address: &str, raws: &Vec<RawTransaction>) -> (r: Result<(), ErrorKind>)
        requires
            old(self).wf(),
        ensures
            final(self).wf(),
            r is Ok ==> merge_all(old(self).view(), raws@, address@) == Some(final(self).view()),
            r is Err ==> merge_all(old(self).view(), raws@, address@) is None,
            r is Err ==> r->Err_0 is RemoteFailure,
    {
        let ghost start = self.view();
        let mut i: usize = 0;
        while i < raws.len()
            invariant
                start == old(self).view(),
                self.wf(),
                i <= raws@.len(),
                merge_all(start, raws@.subrange(0, i as int), address@) == Some(self.view()),
            decreases raws@.len() - i,
        {
            assert(raws@.subrange(0, i + 1).drop_last() =~= raws@.subrange(0, i as int));
            let tx = match transaction_for_address(&raws[i], address) {
                Ok(t) => t,
                Err(e) => {
                    assert(view_for(raws@[i as int], address@) is None);
                    proof { lemma_merge_all_failed(start, raws@, address@, i as int); }
                    assert(merge_all(start, raws@, address@) is None);
                    return Err(e);
                },
            };
            match self.merge(tx) {
                Ok(()) => {},
                Err(e) => {
                    proof { lemma_merge_all_failed(start, raws@, address@, i as int); }
                    return Err(e);
                },
            }
            i = i + 1;
        }
        assert(raws@.subrange(0, raws@.len() as int) =~= raws@);
        Ok(())
    }

    /// The gathered transactions, most recent first.
    pub fn into_sorted(self) -> (r: Vec<Transaction>)
        ensures
            r@.to_multiset() == self.view().to_multiset(),
            sorted_by_recency(r@),
    {
        sort_by_recency(self.txs)
    }
}

/// The merged list after every transaction of `raws`, each taken relative to
/// `addr`, or `None` if one of them fails.
pub open spec fn merge_all(s: Seq<Transaction>, raws: Seq<RawTransaction>, addr: Seq<char>) -> Option<Seq<Transaction>>
    decreases raws.len(),
{
    if raws.len() == 0 {
        Some(s)
    } else {
        match merge_all(s, raws.drop_last(), addr) {
            Some(m) => match view_for(raws.last(), addr) {
                Some(t) => merge_one(m, t),
                None => None,
            },
            None => None,
        }
    }
}

proof fn lemma_merge_all_none_extends(s: Seq<Transaction>, raws: Seq<RawTransaction>, addr: Seq<char>, k: int)
    requires
        0 <= k <= raws.len(),
        merge_all(s, raws.subrange(0, k), addr) is None,
    ensures
        merge_all(s, raws, addr) is None,
    decreases raws.len() - k,
{
    if k < raws.len() {
        assert(raws.subrange(0, k + 1).drop_last() =~= raws.subrange(0, k));
        lemma_merge_all_none_extends(s, raws, addr, k + 1);
    } else {
        assert(raws.subrange(0, k) =~= raws);
    }
}

proof fn lemma_merge_all_failed(s: Seq<Transaction>, raws: Seq<RawTransaction>, addr: Seq<char>, i: int)
    requires
        0 <= i < raws.len(),
        merge_all(s, raws.subrange(0, i), addr) is Some,
        ({
            let m = merge_all(s, raws.subrange(0, i), addr)->0;
            view_for(raws[i], addr) is None || merge_one(m, view_for(raws[i], addr)->0) is None
        }),
    ensures
        merge_all(s, raws, addr) is None,
{
    assert(raws.subrange(0, i + 1).drop_last() =~= raws.subrange(0, i));
    assert(raws.subrange(0, i + 1).last() == raws[i]);
    lemma_merge_all_none_extends(s, raws, addr, i + 1);
}

/// The ordering key: the block time, with unconfirmed transactions above every
/// block time.
pub open spec fn recency_key(t: Transaction) -> int {
    match t.timestamp {
        Some(x) => x as int,
        None => u64::MAX as int + 1,
    }
}

/// Most recent first.
pub open spec fn sorted_by_recency(s: Seq<Transaction>) -> bool {
    forall|i: int, j: int| 0 <= i < j < s.len() ==> recency_key(#[trigger] s[i]) >= recency_key(#[trigger] s[j])
}

/// Whether `a` comes no later than `b` in most-recent-first order.
fn recent_first(a: &Transaction, b: &Transaction) -> (r: bool)
    ensures
        r == (recency_key(*a) >= recency_key(*b)),
{
    match (a.timestamp, b.timestamp) {
        (None, _) => true,
        (Some(_), None) => false,
        (Some(x), Some(y)) => x >= y,
    }
}

/// Orders transactions most recent first, unconfirmed ones at the front.
pub fn sort_by_recency(txs: Vec<Transaction>) -> (r: Vec<Transaction>)
    ensures
        r@.to_multiset() == txs@.to_multiset(),
        sorted_by_recency(r@),
{
    let mut rest = txs;
    let mut out: Vec<Transaction> = Vec::new();
    while rest.len() > 0
        invariant
            out@.to_multiset().add(rest@.to_multiset()) == txs@.to_multiset(),
            sorted_by_recency(out@),
            forall|i: int, j: int| 0 <= i < out@.len() && 0 <= j < rest@.len()
                ==> recency_key(#[trigger] out@[i]) >= recency_key(#[trigger] rest@[j]),
        decreases rest@.len(),
    {
        let mut best: usize = 0;
        let mut k: usize = 1;
        while k < rest.len()
            invariant
                0 < rest@.len(),
                best < rest@.len(),
                1 <= k <= rest@.len(),
                forall|j: int| 0 <= j < k ==> recency_key(rest@[best as int]) >= recency_key(#[trigger] rest@[j]),
            decreases rest@.len() - k,
        {
            if !recent_first(&rest[best], &rest[k]) {
                best = k;
            }
            k = k + 1;
        }
        let ghost before = rest@;
        let ghost out_before = out@;
        let t = rest.remove(best);
        assert(rest@ == before.remove(best as int));
        assert(t == before[best as int]);
        out.push(t);
        assert(out@ == out_before.push(t));
        assert forall|j: int| 0 <= j < rest@.len() implies recency_key(t) >= recency_key(#[trigger] rest@[j]) by {
            if j < best {
                assert(rest@[j] == before[j]);
            } else {
                assert(rest@[j] == before[j + 1]);
            }
        }
        assert forall|i: int, j: int| 0 <= i < out@.len() && 0 <= j < rest@.len()
            implies recency_key(#[trigger] out@[i]) >= recency_key(#[trigger] rest@[j]) by {
            if i < out_before.len() {
                if j < best {
                    assert(rest@[j] == before[j]);
                } else {
                    assert(rest@[j] == before[j + 1]);
                }
            }
        }
        assert(out@.to_multiset().add(rest@.to_multiset()) =~= txs@.to_multiset()) by {
            assert(before.to_multiset().count(t) > 0);
        }
    }
    out
}

} // verus!
