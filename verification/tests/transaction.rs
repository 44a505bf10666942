use blockchain::keys::PublicKey;
use blockchain::trader::Trader;
use blockchain::transaction::Transaction;

#[test]
fn validate_signature() {
    let trader_1 = Trader::new().unwrap();
    let trader_2 = Trader::new().unwrap();

    // Assert that correct transactions are valid. Amounts are fixed-point
    // tenths, so this is a transfer of 1.0.
    let t = Transaction::new(trader_1.public_key.clone(), trader_2.public_key.clone(), 10);
    let st_good = trader_1.sign(t).unwrap();
    assert!(st_good.is_valid());

    // Assert that incorrect transactions are invalid
    let t_ = Transaction::new(trader_1.public_key.clone(), trader_2.public_key.clone(), 10);
    let st_bad = trader_2.sign(t_).unwrap();
    assert!(!st_bad.is_valid());
}

#[test]
fn replaced_signature_is_invalid() {
    let trader_1 = Trader::new().unwrap();
    let trader_2 = Trader::new().unwrap();
    let t = Transaction::new(trader_1.public_key.clone(), trader_2.public_key.clone(), 10);

    let mut st = trader_1.sign(t).unwrap();
    assert!(st.is_valid());
    st.signature = Vec::new();
    assert!(!st.is_valid());

    let t2 = Transaction::new(trader_1.public_key.clone(), trader_2.public_key.clone(), 10);
    let mut st2 = trader_1.sign(t2).unwrap();
    st2.signature = vec![1, 2, 3, 4];
    assert!(!st2.is_valid());
}

#[test]
fn tip_updates_only_tip() {
    let s = PublicKey { n: vec![1, 2], e: vec![3] };
    let r = PublicKey { n: vec![4], e: vec![5, 6] };
    let mut t = Transaction::new(s, r, 10);
    assert_eq!(t.amount, 10);
    assert_eq!(t.change, 0);
    assert_eq!(t.fee, 1);
    assert_eq!(t.tip, 0);
    t.tip(3);
    assert_eq!(t.tip, 3);
    assert_eq!(t.amount, 10);
    assert_eq!(t.fee, 1);
}

#[test]
fn transaction_encoding_layout() {
    let s = PublicKey { n: vec![1, 2], e: vec![3] };
    let r = PublicKey { n: vec![4], e: vec![5, 6] };
    let t = Transaction::new(s, r, 7);

    let mut expected: Vec<u8> = Vec::new();
    expected.extend_from_slice(&2u64.to_le_bytes());
    expected.extend_from_slice(&[1, 2]);
    expected.extend_from_slice(&1u64.to_le_bytes());
    expected.extend_from_slice(&[3]);
    expected.extend_from_slice(&1u64.to_le_bytes());
    expected.extend_from_slice(&[4]);
    expected.extend_from_slice(&2u64.to_le_bytes());
    expected.extend_from_slice(&[5, 6]);
    expected.extend_from_slice(&7u64.to_le_bytes()); // amount
    expected.extend_from_slice(&0u64.to_le_bytes()); // change
    expected.extend_from_slice(&1u64.to_le_bytes()); // fee
    expected.extend_from_slice(&0u64.to_le_bytes()); // tip

    assert_eq!(t.encode(), expected);
}
