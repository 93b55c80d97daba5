use state_keeper_oracle::oracle_tx::{
    assemble_oracle_update_tx, build_oracle_update_tx, oracle_hub_address, ExecuteTransactionCommon,
    TransactionType, ORACLE_TX_GAS_LIMIT,
};
use state_keeper_oracle::primitives::{Address, H256, U256};

fn keccak_of_empty() -> [u8; 32] {
    let hex = "c5d2460186f7233c927e7db2dcc703c0e500b653ca82273b7bfad8045d85a470";
    let mut out = [0u8; 32];
    for i in 0..32 {
        out[i] = u8::from_str_radix(&hex[2 * i..2 * i + 2], 16).unwrap();
    }
    out
}

#[test]
fn test_build_oracle_tx_correct_target() {
    let operator = Address::repeat_byte(0xAA);
    let calldata = vec![0x01, 0x02, 0x03, 0x04];
    let tx = build_oracle_update_tx(operator, calldata);
    assert_eq!(tx.execute.contract_address, Some(oracle_hub_address()));
}

#[test]
fn test_build_oracle_tx_correct_sender() {
    let operator = Address::repeat_byte(0xBB);
    let calldata = vec![0xDE, 0xAD];
    let tx = build_oracle_update_tx(operator, calldata);
    match &tx.common_data {
        ExecuteTransactionCommon::L2(data) => {
            assert_eq!(data.initiator_address, operator);
        }
        #[allow(unreachable_patterns)]
        _ => panic!("Oracle tx must be L2 type"),
    }
}

#[test]
fn test_build_oracle_tx_correct_calldata() {
    let operator = Address::repeat_byte(0xCC);
    let calldata = vec![0xAA, 0xBB, 0xCC, 0xDD, 0xEE];
    let tx = build_oracle_update_tx(operator, calldata.clone());
    assert_eq!(tx.execute.calldata, calldata);
}

#[test]
fn test_build_oracle_tx_zero_value() {
    let operator = Address::repeat_byte(0xDD);
    let calldata = vec![0x01];
    let tx = build_oracle_update_tx(operator, calldata);
    assert_eq!(tx.execute.value, U256::zero());
}

#[test]
fn test_build_oracle_tx_gas_limit() {
    let operator = Address::repeat_byte(0xEE);
    let calldata = vec![0x01];
    let tx = build_oracle_update_tx(operator, calldata);
    match &tx.common_data {
        ExecuteTransactionCommon::L2(data) => {
            assert_eq!(data.fee.gas_limit, U256::from_u64(ORACLE_TX_GAS_LIMIT));
        }
        #[allow(unreachable_patterns)]
        _ => panic!("Oracle tx must be L2 type"),
    }
}

#[test]
fn test_build_oracle_tx_large_calldata() {
    let operator = Address::repeat_byte(0xFF);
    let calldata = vec![0x42; 12800];
    let tx = build_oracle_update_tx(operator, calldata.clone());
    assert_eq!(tx.execute.calldata.len(), 12800);
}

#[test]
fn oracle_hub_is_0x8016() {
    let mut expected = [0u8; 20];
    expected[18] = 0x80;
    expected[19] = 0x16;
    assert_eq!(oracle_hub_address(), Address(expected));
}

#[test]
fn input_hash_is_keccak_of_calldata() {
    let tx = build_oracle_update_tx(Address::repeat_byte(0x01), vec![]);
    let ExecuteTransactionCommon::L2(data) = &tx.common_data;
    let input = data.input.as_ref().unwrap();
    assert_eq!(input.hash, H256(keccak_of_empty()));
    assert!(input.data.is_empty());
}

#[test]
fn input_hash_of_nonempty_calldata() {
    // keccak256("abc")
    let hex = "4e03657aea45a94fc7d47ba826c8d667c0d1e6e33a64a036ec44f58fa12d6c45";
    let mut expected = [0u8; 32];
    for i in 0..32 {
        expected[i] = u8::from_str_radix(&hex[2 * i..2 * i + 2], 16).unwrap();
    }
    let tx = build_oracle_update_tx(Address::repeat_byte(0x01), b"abc".to_vec());
    let ExecuteTransactionCommon::L2(data) = &tx.common_data;
    let input = data.input.as_ref().unwrap();
    assert_eq!(input.hash, H256(expected));
    assert_eq!(input.data, b"abc".to_vec());
}

#[test]
fn oracle_tx_fee_nonce_and_kind() {
    let tx = build_oracle_update_tx(Address::repeat_byte(0x07), vec![1, 2, 3]);
    let ExecuteTransactionCommon::L2(data) = &tx.common_data;
    assert_eq!(data.nonce.0, 0);
    assert_eq!(data.fee.max_fee_per_gas, U256::zero());
    assert_eq!(data.fee.max_priority_fee_per_gas, U256::zero());
    assert_eq!(data.fee.gas_per_pubdata_limit, U256::from_u64(800));
    assert_eq!(data.transaction_type, TransactionType::EIP712Transaction);
    assert!(data.signature.is_empty());
    assert_eq!(data.paymaster_params.paymaster, Address::zero());
    assert!(data.paymaster_params.paymaster_input.is_empty());
    assert!(tx.execute.factory_deps.is_empty());
    assert!(tx.raw_bytes.is_none());
}

#[test]
fn assembled_tx_keeps_hash_and_time() {
    let hash = H256([9u8; 32]);
    let tx = assemble_oracle_update_tx(Address::repeat_byte(0x02), vec![5, 6], hash, 1234);
    assert_eq!(tx.received_timestamp_ms, 1234);
    let ExecuteTransactionCommon::L2(data) = &tx.common_data;
    assert_eq!(data.input.as_ref().unwrap().hash, hash);
    assert_eq!(tx.execute.calldata, vec![5, 6]);
}
