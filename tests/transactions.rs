use satstone::transactions::{sort_by_recency, transaction_for_address, RawTransaction, Transaction, TxAggregator, TxOutput};
use satstone::ErrorKind;

fn out(address: Option<&str>, value_sats: i64) -> TxOutput {
    TxOutput { address: address.map(|a| a.to_string()), value_sats }
}

fn raw(txid: &str, block_time: Option<u64>, spent: Vec<TxOutput>, outputs: Vec<TxOutput>) -> RawTransaction {
    RawTransaction {
        txid: txid.to_string(),
        fee_sats: 150,
        confirmed: block_time.is_some(),
        block_height: block_time.map(|t| t / 600),
        block_time,
        spent,
        outputs,
    }
}

fn tx(txid: &str, amount_sats: i64, timestamp: Option<u64>) -> Transaction {
    Transaction { txid: txid.to_string(), amount_sats, fee_sats: 0, confirmed: timestamp.is_some(), block_height: None, timestamp }
}

#[test]
fn net_amount_is_received_less_spent_for_the_address() {
    let r = raw(
        "t1",
        Some(1_700_000_000),
        vec![out(Some("A"), 50_000), out(Some("B"), 1_000), out(None, 9)],
        vec![out(Some("A"), 20_000), out(Some("C"), 29_850), out(Some("A"), 5)],
    );
    let t = transaction_for_address(&r, "A").unwrap();
    assert_eq!(t.amount_sats, 20_005 - 50_000);
    assert_eq!(t.txid, "t1");
    assert_eq!(t.fee_sats, 150);
    assert!(t.confirmed);
    assert_eq!(t.timestamp, Some(1_700_000_000));
    assert_eq!(t.block_height, Some(1_700_000_000 / 600));
    assert_eq!(transaction_for_address(&r, "C").unwrap().amount_sats, 29_850);
    assert_eq!(transaction_for_address(&r, "Z").unwrap().amount_sats, 0);
}

#[test]
fn net_amount_out_of_range_is_a_remote_failure() {
    let r = raw("t", None, vec![], vec![out(Some("A"), i64::MAX), out(Some("A"), 1)]);
    assert!(matches!(transaction_for_address(&r, "A"), Err(ErrorKind::RemoteFailure(_))));
}

#[test]
fn observations_of_one_txid_are_merged() {
    let mut agg = TxAggregator::new();
    let shared = raw("t1", Some(10), vec![out(Some("A"), 1_000)], vec![out(Some("B"), 600), out(Some("X"), 250)]);
    let other = raw("t2", Some(20), vec![], vec![out(Some("A"), 70)]);
    agg.add_address_transactions("A", &vec![shared.clone(), other]).unwrap();
    agg.add_address_transactions("B", &vec![shared]).unwrap();
    assert_eq!(agg.len(), 2);
    let txs = agg.into_sorted();
    assert_eq!(txs[0].txid, "t2");
    assert_eq!(txs[0].amount_sats, 70);
    assert_eq!(txs[1].txid, "t1");
    assert_eq!(txs[1].amount_sats, -1_000 + 600);
}

#[test]
fn first_observation_keeps_its_fields() {
    let mut agg = TxAggregator::new();
    agg.merge(tx("t", 5, Some(100))).unwrap();
    agg.merge(Transaction { fee_sats: 99, ..tx("t", 7, Some(200)) }).unwrap();
    let txs = agg.into_sorted();
    assert_eq!(txs.len(), 1);
    assert_eq!(txs[0].amount_sats, 12);
    assert_eq!(txs[0].timestamp, Some(100));
    assert_eq!(txs[0].fee_sats, 0);
}

#[test]
fn merged_sum_out_of_range_leaves_entries_unchanged() {
    let mut agg = TxAggregator::new();
    agg.merge(tx("t", i64::MAX, None)).unwrap();
    assert!(matches!(agg.merge(tx("t", 1, None)), Err(ErrorKind::RemoteFailure(_))));
    let txs = agg.into_sorted();
    assert_eq!(txs.len(), 1);
    assert_eq!(txs[0].amount_sats, i64::MAX);
}

#[test]
fn most_recent_first_with_unconfirmed_on_top() {
    let sorted = sort_by_recency(vec![
        tx("old", 1, Some(100)),
        tx("pending", 2, None),
        tx("new", 3, Some(300)),
        tx("mid", 4, Some(200)),
    ]);
    let ids: Vec<&str> = sorted.iter().map(|t| t.txid.as_str()).collect();
    assert_eq!(ids, vec!["pending", "new", "mid", "old"]);
    assert!(sort_by_recency(vec![]).is_empty());
}
