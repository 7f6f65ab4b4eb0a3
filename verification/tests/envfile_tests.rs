use melorun::{map_to_vec, CoinRecord, CoinId, Denom, EnvFile, SpendContext, TransactionKind};
use melorun::envfile::signatures_for;

fn coin(tag: u8) -> CoinId {
    CoinId { txhash: vec![tag; 32], index: 0 }
}

fn output(value: u128) -> CoinRecord {
    CoinRecord {
        covhash: vec![0; 32],
        value,
        denom: Denom::Mel,
        additional_data: Vec::new(),
    }
}

fn base_context() -> SpendContext {
    SpendContext {
        spender_txkind: TransactionKind::Normal,
        spender_other_inputs: Vec::new(),
        spender_index: 0,
        spender_data: Vec::new(),
        spender_output: Vec::new(),
        parent_value: 0,
        parent_denom: Denom::Mel,
        parent_additional_data: Vec::new(),
        ed25519_signers: Vec::new(),
    }
}

#[test]
fn densify_fills_gaps_with_default() {
    let map = vec![(0u8, coin(10)), (2, coin(12)), (5, coin(15))];
    let dense = map_to_vec(&map, &coin(0xee));
    assert_eq!(dense.len(), 6);
    assert_eq!(dense[0].txhash, vec![10; 32]);
    assert_eq!(dense[1].txhash, vec![0xee; 32]);
    assert_eq!(dense[2].txhash, vec![12; 32]);
    assert_eq!(dense[3].txhash, vec![0xee; 32]);
    assert_eq!(dense[4].txhash, vec![0xee; 32]);
    assert_eq!(dense[5].txhash, vec![15; 32]);
}

#[test]
fn densify_of_empty_map_is_empty() {
    let map: Vec<(u8, CoinId)> = Vec::new();
    let dense = map_to_vec(&map, &coin(0xee));
    assert_eq!(dense.len(), 0);
}

#[test]
fn self_index_entry_is_overwritten() {
    let mut sc = base_context();
    sc.spender_index = 1;
    sc.spender_other_inputs = vec![(1u8, coin(7))];
    let env = EnvFile::from_spend_context(&vec![1, 2, 3], &sc);
    assert_eq!(env.spender_tx.inputs.len(), 2);
    // the user's coin at position 1 is silently replaced by the placeholder
    assert_eq!(env.spender_tx.inputs[1].txhash, vec![0; 32]);
    assert_eq!(env.spender_tx.inputs[1].index, 0);
}

#[test]
fn outputs_densified_with_defaults() {
    let mut sc = base_context();
    sc.spender_output = vec![(0u8, output(100)), (2, output(102)), (5, output(105))];
    let env = EnvFile::from_spend_context(&vec![9], &sc);
    let outs = &env.spender_tx.outputs;
    assert_eq!(outs.len(), 6);
    assert_eq!(outs[0].value, 100);
    assert_eq!(outs[1].value, 0);
    assert_eq!(outs[2].value, 102);
    assert_eq!(outs[3].value, 0);
    assert_eq!(outs[4].value, 0);
    assert_eq!(outs[5].value, 105);
}

#[test]
fn transaction_carries_kind_fee_script_and_data() {
    let mut sc = base_context();
    sc.spender_txkind = TransactionKind::Swap;
    sc.spender_data = vec![0xaa, 0xbb];
    let covenant = vec![4, 5, 6];
    let env = EnvFile::from_spend_context(&covenant, &sc);
    assert!(matches!(env.spender_tx.kind, TransactionKind::Swap));
    assert_eq!(env.spender_tx.fee, 0);
    assert_eq!(env.spender_tx.covenants, vec![covenant]);
    assert_eq!(env.spender_tx.data, vec![0xaa, 0xbb]);
}

#[test]
fn environment_has_synthetic_constants() {
    let sc = base_context();
    let covenant = vec![7, 7, 7];
    let env = EnvFile::from_spend_context(&covenant, &sc);
    assert_eq!(env.environment.parent_cdh.height, 1000);
    assert_eq!(env.environment.last_header.height, 2000);
    assert_eq!(env.environment.last_header.fee_pool, 10000);
    assert_eq!(env.environment.last_header.fee_multiplier, 10000);
    assert_eq!(env.environment.last_header.dosc_speed, 100000);
    assert_eq!(env.environment.last_header.previous, vec![0; 32]);
    assert_eq!(env.environment.parent_coinid.txhash, vec![0; 32]);
    // the parent coin's address is the digest of the compiled script
    let expected = tmelcrypt::hash_single(&covenant).0.to_vec();
    assert_eq!(env.environment.parent_cdh.coin_data.covhash, expected);
}

#[test]
fn parent_coin_carries_scenario_attributes() {
    let mut sc = base_context();
    sc.parent_value = 4242;
    sc.parent_additional_data = vec![1, 2];
    let env = EnvFile::from_spend_context(&vec![1], &sc);
    assert_eq!(env.environment.parent_cdh.coin_data.value, 4242);
    assert_eq!(env.environment.parent_cdh.coin_data.additional_data, vec![1, 2]);
}

#[test]
fn signer_signs_transaction_hash() {
    let sk = tmelcrypt::Ed25519SK::generate();
    let sk_hex = hex::encode(sk.0);
    let hash = vec![0x11; 32];
    let signers = vec![(2u8, sk_hex)];
    let sigs = signatures_for(&signers, &hash);
    assert_eq!(sigs.len(), 3);
    assert_eq!(sigs[0], Vec::<u8>::new());
    assert_eq!(sigs[1], Vec::<u8>::new());
    assert_eq!(sigs[2], sk.sign(&hash));
}

#[test]
fn malformed_signer_key_is_skipped() {
    let hash = vec![0x11; 32];
    // odd-length hex, non-hex text, and wrong key length are all skipped
    let signers = vec![
        (0u8, String::from("abc")),
        (1u8, String::from("zz")),
        (2u8, String::from("aabb")),
    ];
    let sigs = signatures_for(&signers, &hash);
    assert_eq!(sigs.len(), 0);
}

#[test]
fn mixed_signers_densify_by_position() {
    let sk = tmelcrypt::Ed25519SK::generate();
    let sk_hex = hex::encode(sk.0);
    let hash = vec![0x22; 32];
    let signers = vec![(0u8, String::from("bad")), (1u8, sk_hex)];
    let sigs = signatures_for(&signers, &hash);
    assert_eq!(sigs.len(), 2);
    assert_eq!(sigs[0], Vec::<u8>::new());
    assert_eq!(sigs[1], sk.sign(&hash));
}
