//! Oracle transaction builder: the synthetic L2 transaction that carries the
//! oracle price update.
//!
//! The state keeper injects it at the start of each batch as the first
//! user-space transaction, right after any protocol upgrade transaction.
use vstd::prelude::*;

use crate::primitives::{zeros, Address, H256, U256};

verus! {

/// Gas limit for the oracle update transaction. Generous: the operator does
/// not actually pay gas.
pub const ORACLE_TX_GAS_LIMIT: u64 = 5_000_000;

/// Gas per pubdata byte limit of the oracle update transaction.
pub const ORACLE_TX_GAS_PER_PUBDATA_LIMIT: u64 = 800;

/// The bytes of the OracleHub system contract address, 0x8016.
pub open spec fn oracle_hub_address_bytes() -> Seq<u8> {
    zeros(18) + seq![0x80u8, 0x16u8]
}

/// Address of the OracleHub system contract, 0x8016.
pub fn oracle_hub_address() -> (a: Address)
    ensures
        a@ == oracle_hub_address_bytes(),
{
    let mut bytes = [0u8; 20];
    bytes[18] = 0x80;
    bytes[19] = 0x16;
    let a = Address(bytes);
    assert(a@ =~= oracle_hub_address_bytes());
    a
}

/// Nonce of a transaction.
#[derive(Clone, Copy, Debug, PartialEq, Eq)]
pub struct Nonce(pub u32);

/// Fee parameters of an L2 transaction.
#[derive(Clone, Copy, Debug, PartialEq, Eq)]
pub struct Fee {
    pub gas_limit: U256,
    pub max_fee_per_gas: U256,
    pub max_priority_fee_per_gas: U256,
    pub gas_per_pubdata_limit: U256,
}

/// Paymaster of a transaction and the input it is given.
#[derive(Clone, Debug, PartialEq, Eq)]
pub struct PaymasterParams {
    pub paymaster: Address,
    pub paymaster_input: Vec<u8>,
}

impl PaymasterParams {
    /// No paymaster: the zero address and empty input.
    pub fn none() -> (p: PaymasterParams)
        ensures
            p.paymaster@ == zeros(20),
            p.paymaster_input@.len() == 0,
    {
        PaymasterParams { paymaster: Address::zero(), paymaster_input: Vec::new() }
    }
}

/// The kind of an L2 transaction.
#[derive(Clone, Copy, Debug, PartialEq, Eq)]
pub enum TransactionType {
    /// EIP-712 transaction, the native zkSync L2 transaction.
    EIP712Transaction,
}

/// The raw input of a transaction and the hash it is known by.
#[derive(Clone, Debug, PartialEq, Eq)]
pub struct InputData {
    pub hash: H256,
    pub data: Vec<u8>,
}

/// What an L2 transaction carries besides the call itself.
#[derive(Clone, Debug, PartialEq, Eq)]
pub struct L2TxCommonData {
    pub nonce: Nonce,
    pub fee: Fee,
    pub initiator_address: Address,
    pub signature: Vec<u8>,
    pub transaction_type: TransactionType,
    pub input: Option<InputData>,
    pub paymaster_params: PaymasterParams,
}

/// Origin-specific data of a transaction.
#[derive(Clone, Debug, PartialEq, Eq)]
pub enum ExecuteTransactionCommon {
    L2(L2TxCommonData),
}

/// The call a transaction makes.
#[derive(Clone, Debug, PartialEq, Eq)]
pub struct Execute {
    pub contract_address: Option<Address>,
    pub calldata: Vec<u8>,
    pub value: U256,
    pub factory_deps: Vec<Vec<u8>>,
}

/// A transaction as the state keeper executes it.
#[derive(Clone, Debug, PartialEq, Eq)]
pub struct Transaction {
    pub common_data: ExecuteTransactionCommon,
    pub execute: Execute,
    pub received_timestamp_ms: u64,
    pub raw_bytes: Option<Vec<u8>>,
}

/// `tx` is the oracle price update sent by `operator` with `calldata`,
/// registered under input hash `hash`; its receipt time is left open.
pub open spec fn is_oracle_update_tx(
    tx: Transaction,
    operator: Address,
    calldata: Seq<u8>,
    hash: Seq<u8>,
) -> bool {
    &&& tx.execute.contract_address matches Some(target) && target@ == oracle_hub_address_bytes()
    &&& tx.execute.calldata@ == calldata
    &&& tx.execute.value@ == 0
    &&& tx.execute.factory_deps@.len() == 0
    &&& tx.raw_bytes is None
    &&& match tx.common_data {
        ExecuteTransactionCommon::L2(data) => {
            &&& data.nonce.0 == 0
            &&& data.fee.gas_limit@ == ORACLE_TX_GAS_LIMIT
            &&& data.fee.max_fee_per_gas@ == 0
            &&& data.fee.max_priority_fee_per_gas@ == 0
            &&& data.fee.gas_per_pubdata_limit@ == ORACLE_TX_GAS_PER_PUBDATA_LIMIT
            &&& data.initiator_address == operator
            &&& data.signature@.len() == 0
            &&& data.transaction_type == TransactionType::EIP712Transaction
            &&& data.input matches Some(input) && input.data@ == calldata && input.hash@ == hash
            &&& data.paymaster_params.paymaster@ == zeros(20)
            &&& data.paymaster_params.paymaster_input@.len() == 0
        },
    }
}

/// Law: the oracle update transaction is sent by the operator passed in,
/// to the OracleHub at 0x8016, with the calldata passed in as both its call
/// data and its input, no value, nonce 0, a 5,000,000 gas limit that the
/// operator does not pay for, and the given input hash.
pub proof fn lemma_oracle_update_tx_fields(
    tx: Transaction,
    operator: Address,
    calldata: Seq<u8>,
    hash: Seq<u8>,
)
    requires
        is_oracle_update_tx(tx, operator, calldata, hash),
    ensures
        tx.execute.contract_address is Some,
        tx.execute.contract_address->0@.len() == 20,
        forall|i: int| 0 <= i < 18 ==> tx.execute.contract_address->0@[i] == 0u8,
        tx.execute.contract_address->0@[18] == 0x80u8,
        tx.execute.contract_address->0@[19] == 0x16u8,
        tx.execute.calldata@ == calldata,
        tx.execute.value@ == 0,
        tx.common_data->L2_0.initiator_address == operator,
        tx.common_data->L2_0.initiator_address@ == operator@,
        tx.common_data->L2_0.nonce.0 == 0,
        tx.common_data->L2_0.fee.gas_limit@ == 5_000_000,
        tx.common_data->L2_0.fee.max_fee_per_gas@ == 0,
        tx.common_data->L2_0.fee.max_priority_fee_per_gas@ == 0,
        tx.common_data->L2_0.transaction_type == TransactionType::EIP712Transaction,
        tx.common_data->L2_0.input is Some,
        tx.common_data->L2_0.input->0.data@ == calldata,
        tx.common_data->L2_0.input->0.hash@ == hash,
{
}

/// What Keccak-256 gives for the bytes `data`.
pub uninterp spec fn keccak256_digest(data: Seq<u8>) -> Seq<u8>;

/// Keccak-256 of `data`, computed by tiny_keccak (`Keccak::v256`, then
/// `Hasher::update` and `Hasher::finalize` into 32 bytes). The contract claims
/// only that the digest is a function of the bytes hashed.
#[verifier::external_body]
fn keccak256(data: &[u8]) -> (digest: [u8; 32])
    ensures
        digest@ == keccak256_digest(data@),
{
    let mut hasher = tiny_keccak::Keccak::v256();
    tiny_keccak::Hasher::update(&mut hasher, data);
    let mut digest = [0u8; 32];
    tiny_keccak::Hasher::finalize(hasher, &mut digest);
    digest
}

/// Milliseconds since the Unix epoch by the machine's clock, from
/// `std::time::SystemTime::elapsed` on `UNIX_EPOCH`; a clock set before the
/// epoch gives 0. Nothing is claimed of the value.
#[verifier::external_body]
fn unix_timestamp_ms() -> u64 {
    match std::time::UNIX_EPOCH.elapsed() {
        Ok(elapsed) => elapsed.as_millis() as u64,
        Err(_) => 0,
    }
}

/// The oracle price update transaction of `operator_address` with
/// `oracle_calldata`, registered under input hash `hash` and received at
/// `received_timestamp_ms`.
pub fn assemble_oracle_update_tx(
    operator_address: Address,
    oracle_calldata: Vec<u8>,
    hash: H256,
    received_timestamp_ms: u64,
) -> (tx: Transaction)
    ensures
        is_oracle_update_tx(tx, operator_address, oracle_calldata@, hash@),
        tx.received_timestamp_ms == received_timestamp_ms,
        tx.common_data->L2_0.initiator_address == operator_address,
        tx.execute.calldata@ == oracle_calldata@,
{
    let calldata = oracle_calldata.clone();
    assert(calldata@ =~= oracle_calldata@);
    let fee = Fee {
        gas_limit: U256::from_u64(ORACLE_TX_GAS_LIMIT),
        max_fee_per_gas: U256::from_u64(0),
        max_priority_fee_per_gas: U256::from_u64(0),
        gas_per_pubdata_limit: U256::from_u64(ORACLE_TX_GAS_PER_PUBDATA_LIMIT),
    };
    let common_data = L2TxCommonData {
        nonce: Nonce(0),
        fee,
        initiator_address: operator_address,
        signature: Vec::new(),
        transaction_type: TransactionType::EIP712Transaction,
        input: Some(InputData { hash, data: oracle_calldata }),
        paymaster_params: PaymasterParams::none(),
    };
    let execute = Execute {
        contract_address: Some(oracle_hub_address()),
        calldata,
        value: U256::zero(),
        factory_deps: Vec::new(),
    };
    Transaction {
        common_data: ExecuteTransactionCommon::L2(common_data),
        execute,
        received_timestamp_ms,
        raw_bytes: None,
    }
}

/// Build an oracle price update transaction.
///
/// The transaction calls `OracleHub.batchUpdatePrices()` with the
/// pre-encoded ABI calldata from the oracle service. It is an L2 (EIP-712)
/// transaction with the operator as sender, the OracleHub (0x8016) as target,
/// a gas limit of 5M that the operator does not pay, nonce 0, and the
/// Keccak-256 of the calldata as its input hash.
pub fn build_oracle_update_tx(operator_address: Address, oracle_calldata: Vec<u8>) -> (tx:
    Transaction)
    ensures
        is_oracle_update_tx(
            tx,
            operator_address,
            oracle_calldata@,
            keccak256_digest(oracle_calldata@),
        ),
        tx.common_data->L2_0.initiator_address == operator_address,
        tx.execute.calldata@ == oracle_calldata@,
{
    let hash = H256(keccak256(oracle_calldata.as_slice()));
    let received = unix_timestamp_ms();
    assemble_oracle_update_tx(operator_address, oracle_calldata, hash, received)
}

} // verus!
