//! The initial memory of the bootloader for a batch: the batch header words
//! and, from slot 8 on, the oracle price calldata.
use vstd::prelude::*;

use crate::primitives::{be_nat, lemma_be_nat_zero_prefix, zeros, Address, U256, H256};

verus! {

pub const OPERATOR_ADDRESS_SLOT: usize = 0;

pub const PREV_BLOCK_HASH_SLOT: usize = 1;

pub const NEW_BLOCK_TIMESTAMP_SLOT: usize = 2;

pub const NEW_BLOCK_NUMBER_SLOT: usize = 3;

pub const FAIR_PUBDATA_PRICE_SLOT: usize = 4;

pub const FAIR_L2_GAS_PRICE_SLOT: usize = 5;

pub const EXPECTED_BASE_FEE_SLOT: usize = 6;

pub const SHOULD_SET_NEW_BLOCK_SLOT: usize = 7;

/// Oracle calldata begins at this slot: its first word is the calldata
/// length in bytes, the following words hold the raw calldata.
pub const ORACLE_CALLDATA_BEGIN_SLOT: usize = 8;

/// Number of slots reserved for the oracle calldata, its length word included.
pub const ORACLE_CALLDATA_MAX_SLOTS: usize = 24;

/// The most calldata bytes that fit in the reserved slots after the length word.
pub const MAX_ORACLE_CALLDATA_BYTES: usize = (ORACLE_CALLDATA_MAX_SLOTS - 1) * 32;

/// What the bootloader's initial memory is made from: the environment of the
/// batch that is about to be executed.
pub struct L1BatchEnv {
    /// Hash of the previous batch, if there is one.
    pub previous_batch_hash: Option<H256>,
    /// Number of the batch.
    pub number: u32,
    /// Timestamp of the batch.
    pub timestamp: u64,
    /// Fair price of a byte of pubdata that the batch's fee input yields.
    pub fair_pubdata_price: u64,
    /// Fair L2 gas price that the batch's fee input yields.
    pub fair_l2_gas_price: u64,
    /// Base fee of the batch, as its fee model sets it.
    pub batch_base_fee: u64,
    /// Account of the operator that receives the fees.
    pub fee_account: Address,
    /// ABI-encoded oracle price update, if the oracle service supplied one.
    pub oracle_calldata: Option<Vec<u8>>,
}

/// The oracle calldata that is written: none and empty calldata alike write
/// only a zero length.
pub open spec fn oracle_calldata_of(env: &L1BatchEnv) -> Seq<u8> {
    match env.oracle_calldata {
        Some(data) => data@,
        None => Seq::<u8>::empty(),
    }
}

/// The batch fits the reserved oracle slots.
pub open spec fn oracle_calldata_fits(env: &L1BatchEnv) -> bool {
    oracle_calldata_of(env).len() <= MAX_ORACLE_CALLDATA_BYTES
}

/// Number of 32-byte words that `len` bytes take.
pub open spec fn num_words(len: nat) -> nat {
    ((len + 31) / 32) as nat
}

/// Word `k` of `data`: bytes `32k .. 32k + 32`, padded with zeros past the end.
pub open spec fn calldata_word(data: Seq<u8>, k: int) -> Seq<u8> {
    Seq::new(32, |j: int| if 32 * k + j < data.len() { data[32 * k + j] } else { 0u8 })
}

/// The values of the eight header slots, in slot order.
pub open spec fn header_values(env: &L1BatchEnv) -> Seq<nat> {
    seq![
        be_nat(env.fee_account@),
        match env.previous_batch_hash {
            Some(h) => be_nat(h@),
            None => 0nat,
        },
        env.timestamp as nat,
        env.number as nat,
        env.fair_pubdata_price as nat,
        env.fair_l2_gas_price as nat,
        env.batch_base_fee as nat,
        if env.previous_batch_hash is Some {
            1nat
        } else {
            0nat
        },
    ]
}

/// `mem`, from position `start` on, holds the oracle calldata `data`: the
/// length word at slot 8 and then the calldata words at slots 9, 10, ...
pub open spec fn is_oracle_region(mem: Seq<(usize, U256)>, start: int, data: Seq<u8>) -> bool {
    &&& mem.len() == start + 1 + num_words(data.len())
    &&& mem[start].0 == ORACLE_CALLDATA_BEGIN_SLOT
    &&& mem[start].1@ == data.len()
    &&& forall|k: int|
        0 <= k < num_words(data.len()) ==> {
            &&& (#[trigger] mem[start + 1 + k]).0 == ORACLE_CALLDATA_BEGIN_SLOT + 1 + k
            &&& mem[start + 1 + k].1.0@ == calldata_word(data, k)
        }
}

/// `mem` is the initial bootloader memory of `env`.
pub open spec fn is_initial_memory(env: &L1BatchEnv, mem: Seq<(usize, U256)>) -> bool {
    &&& mem.len() >= 8
    &&& forall|i: int| 0 <= i < 8 ==> (#[trigger] mem[i]).0 == i && mem[i].1@ == header_values(env)[i]
    &&& mem[OPERATOR_ADDRESS_SLOT as int].1.0@ == zeros(12) + env.fee_account@
    &&& mem[PREV_BLOCK_HASH_SLOT as int].1.0@ == match env.previous_batch_hash {
        Some(h) => h@,
        None => zeros(32),
    }
    &&& is_oracle_region(mem, 8, oracle_calldata_of(env))
}

/// The bytes of the `n` words at positions `from, from + 1, ...` of `mem`,
/// one after the other.
pub open spec fn words_bytes(mem: Seq<(usize, U256)>, from: int, n: nat) -> Seq<u8>
    decreases n,
{
    if n == 0 {
        Seq::<u8>::empty()
    } else {
        words_bytes(mem, from, (n - 1) as nat) + mem[from + n - 1].1.0@
    }
}

/// The oracle calldata as the bootloader reads it back: the length from slot
/// 8, then that many bytes from the words that follow it.
pub open spec fn read_oracle_calldata(mem: Seq<(usize, U256)>) -> Seq<u8> {
    let len = mem[ORACLE_CALLDATA_BEGIN_SLOT as int].1@;
    words_bytes(mem, ORACLE_CALLDATA_BEGIN_SLOT + 1, num_words(len)).take(len as int)
}

/// The bytes after the calldata in its last word.
pub open spec fn oracle_padding(mem: Seq<(usize, U256)>) -> Seq<u8> {
    let len = mem[ORACLE_CALLDATA_BEGIN_SLOT as int].1@;
    words_bytes(mem, ORACLE_CALLDATA_BEGIN_SLOT + 1, num_words(len)).skip(len as int)
}

proof fn lemma_words_bytes_prefix(mem: Seq<(usize, U256)>, start: int, data: Seq<u8>, n: nat)
    requires
        is_oracle_region(mem, start, data),
        n <= num_words(data.len()),
    ensures
        words_bytes(mem, start + 1, n) =~= Seq::new(
            32 * n,
            |j: int| if j < data.len() { data[j] } else { 0u8 },
        ),
    decreases n,
{
    if n > 0 {
        let m = (n - 1) as nat;
        lemma_words_bytes_prefix(mem, start, data, m);
        let k = m as int;
        assert(mem[start + 1 + k].1.0@ == calldata_word(data, k));
        assert(start + 1 + n - 1 == start + 1 + k);
    }
}

/// Law: what the bootloader reads back from the initial memory of a batch,
/// as the oracle calldata, is the calldata of the batch, and the rest of its
/// last word is zero.
pub proof fn lemma_oracle_calldata_read_back(env: &L1BatchEnv, mem: Seq<(usize, U256)>)
    requires
        is_initial_memory(env, mem),
    ensures
        read_oracle_calldata(mem) == oracle_calldata_of(env),
        forall|j: int| 0 <= j < oracle_padding(mem).len() ==> oracle_padding(mem)[j] == 0u8,
{
    let data = oracle_calldata_of(env);
    let len = data.len();
    let n = num_words(len);
    lemma_words_bytes_prefix(mem, 8, data, n);
    assert(32 * n >= len);
    assert(read_oracle_calldata(mem) =~= data);
}

/// Law: every slot of the initial memory is written once, in slot order, and
/// the oracle calldata stays within its reserved slots.
pub proof fn lemma_initial_memory_slots(env: &L1BatchEnv, mem: Seq<(usize, U256)>)
    requires
        oracle_calldata_fits(env),
        is_initial_memory(env, mem),
    ensures
        forall|i: int| 0 <= i < mem.len() ==> #[trigger] mem[i].0 == i,
        mem.len() <= ORACLE_CALLDATA_BEGIN_SLOT + ORACLE_CALLDATA_MAX_SLOTS,
{
    let n = num_words(oracle_calldata_of(env).len());
    assert forall|i: int| 0 <= i < mem.len() implies #[trigger] mem[i].0 == i by {
        if i > 8 {
            assert(mem[8 + 1 + (i - 9)] == mem[i]);
        }
    }
}

/// Law: each header slot of the initial memory holds its own batch field:
/// the fee account as a word (12 zero bytes, then the address), the previous
/// batch hash as a word and a 1 in the new-block slot (zero words where there
/// is no previous batch), then timestamp, number, pubdata price, L2 gas price
/// and base fee.
pub proof fn lemma_initial_memory_header(env: &L1BatchEnv, mem: Seq<(usize, U256)>)
    requires
        is_initial_memory(env, mem),
    ensures
        mem[OPERATOR_ADDRESS_SLOT as int].0 == 0,
        mem[OPERATOR_ADDRESS_SLOT as int].1.0@ == zeros(12) + env.fee_account@,
        mem[OPERATOR_ADDRESS_SLOT as int].1@ == be_nat(env.fee_account@),
        mem[PREV_BLOCK_HASH_SLOT as int].0 == 1,
        env.previous_batch_hash matches Some(h) ==> mem[PREV_BLOCK_HASH_SLOT as int].1.0@ == h@,
        env.previous_batch_hash is None ==> mem[PREV_BLOCK_HASH_SLOT as int].1.0@ == zeros(32),
        mem[NEW_BLOCK_TIMESTAMP_SLOT as int].0 == 2,
        mem[NEW_BLOCK_TIMESTAMP_SLOT as int].1@ == env.timestamp,
        mem[NEW_BLOCK_NUMBER_SLOT as int].0 == 3,
        mem[NEW_BLOCK_NUMBER_SLOT as int].1@ == env.number,
        mem[FAIR_PUBDATA_PRICE_SLOT as int].0 == 4,
        mem[FAIR_PUBDATA_PRICE_SLOT as int].1@ == env.fair_pubdata_price,
        mem[FAIR_L2_GAS_PRICE_SLOT as int].0 == 5,
        mem[FAIR_L2_GAS_PRICE_SLOT as int].1@ == env.fair_l2_gas_price,
        mem[EXPECTED_BASE_FEE_SLOT as int].0 == 6,
        mem[EXPECTED_BASE_FEE_SLOT as int].1@ == env.batch_base_fee,
        mem[SHOULD_SET_NEW_BLOCK_SLOT as int].0 == 7,
        mem[SHOULD_SET_NEW_BLOCK_SLOT as int].1@ == (if env.previous_batch_hash is Some {
            1nat
        } else {
            0nat
        }),
{
    assert(mem[0].0 == 0 && mem[0].1@ == header_values(env)[0]);
    assert(mem[1].0 == 1 && mem[1].1@ == header_values(env)[1]);
    assert(mem[2].0 == 2 && mem[2].1@ == header_values(env)[2]);
    assert(mem[3].0 == 3 && mem[3].1@ == header_values(env)[3]);
    assert(mem[4].0 == 4 && mem[4].1@ == header_values(env)[4]);
    assert(mem[5].0 == 5 && mem[5].1@ == header_values(env)[5]);
    assert(mem[6].0 == 6 && mem[6].1@ == header_values(env)[6]);
    assert(mem[7].0 == 7 && mem[7].1@ == header_values(env)[7]);
    lemma_be_nat_zero_prefix(12, env.fee_account@);
}

/// Law: in memory that holds calldata `data` from position `start` on, the
/// length word is at slot 8 and holds `data.len()`, and the word for byte
/// chunk `k` is at slot `9 + k`, wherever in the memory the region starts;
/// its byte `j` is byte `32k + j` of `data`, or zero past the end of `data`.
pub proof fn lemma_oracle_region_words(mem: Seq<(usize, U256)>, start: int, data: Seq<u8>)
    requires
        is_oracle_region(mem, start, data),
    ensures
        mem[start].0 == 8,
        mem[start].1@ == data.len(),
        mem.len() - start - 1 == (data.len() + 31) / 32,
        forall|k: int|
            0 <= k < mem.len() - start - 1 ==> (#[trigger] mem[start + 1 + k]).0 == 9 + k,
        forall|k: int, j: int|
            0 <= k < mem.len() - start - 1 && 0 <= j < 32 ==> (#[trigger] mem[start + 1
                + k].1.0@[j]) == if 32 * k + j < data.len() {
                data[32 * k + j]
            } else {
                0u8
            },
{
    assert forall|k: int, j: int|
        0 <= k < mem.len() - start - 1 && 0 <= j < 32 implies (#[trigger] mem[start + 1
        + k].1.0@[j]) == if 32 * k + j < data.len() {
        data[32 * k + j]
    } else {
        0u8
    } by {
        assert(mem[start + 1 + k].1.0@ == calldata_word(data, k));
    }
}

/// Law: the initial memory holds the batch's oracle calldata from slot 8 on:
/// no calldata writes only a zero length at slot 8; calldata `d` writes its
/// length at slot 8 and, at slot `9 + k`, the word whose byte `j` is byte
/// `32k + j` of `d` (zero past its end), for just as many words as `d` needs.
pub proof fn lemma_initial_memory_calldata(env: &L1BatchEnv, mem: Seq<(usize, U256)>)
    requires
        is_initial_memory(env, mem),
    ensures
        mem[8].0 == 8,
        env.oracle_calldata is None ==> mem.len() == 9 && mem[8].1@ == 0,
        env.oracle_calldata matches Some(d) ==> {
            &&& mem[8].1@ == d@.len()
            &&& mem.len() == 9 + (d@.len() + 31) / 32
            &&& forall|k: int, j: int|
                0 <= k < mem.len() - 9 && 0 <= j < 32 ==> (#[trigger] mem[9 + k].1.0@[j]) == if 32
                    * k + j < d@.len() {
                    d@[32 * k + j]
                } else {
                    0u8
                }
            &&& forall|k: int| 0 <= k < mem.len() - 9 ==> (#[trigger] mem[9 + k]).0 == 9 + k
        },
{
    lemma_oracle_region_words(mem, 8, oracle_calldata_of(env));
}

/// Bootloader memory as `(slot, word)` pairs.
pub struct BootloaderState;

impl BootloaderState {
    /// Returns the initial memory for the bootloader based on the current
    /// batch environment.
    pub fn initial_memory(l1_batch: &L1BatchEnv) -> (memory: Vec<(usize, U256)>)
        requires
            oracle_calldata_fits(l1_batch),
        ensures
            is_initial_memory(l1_batch, memory@),
            forall|i: int| 0 <= i < memory@.len() ==> #[trigger] memory@[i].0 == i,
            memory@[OPERATOR_ADDRESS_SLOT as int].1.0@ == zeros(12) + l1_batch.fee_account@,
            l1_batch.previous_batch_hash matches Some(h) ==> memory@[PREV_BLOCK_HASH_SLOT as int].1.0@
                == h@ && memory@[SHOULD_SET_NEW_BLOCK_SLOT as int].1@ == 1,
            l1_batch.previous_batch_hash is None ==> memory@[PREV_BLOCK_HASH_SLOT as int].1@ == 0
                && memory@[SHOULD_SET_NEW_BLOCK_SLOT as int].1@ == 0,
            memory@[NEW_BLOCK_TIMESTAMP_SLOT as int].1@ == l1_batch.timestamp,
            memory@[NEW_BLOCK_NUMBER_SLOT as int].1@ == l1_batch.number,
            memory@[FAIR_PUBDATA_PRICE_SLOT as int].1@ == l1_batch.fair_pubdata_price,
            memory@[FAIR_L2_GAS_PRICE_SLOT as int].1@ == l1_batch.fair_l2_gas_price,
            memory@[EXPECTED_BASE_FEE_SLOT as int].1@ == l1_batch.batch_base_fee,
    {
        let (prev_block_hash, should_set_new_block) = match &l1_batch.previous_batch_hash {
            Some(h) => {
                let hash_bytes: &[u8] = h.0.as_slice();
                (U256::from_big_endian(hash_bytes), U256::one())
            },
            None => (U256::zero(), U256::zero()),
        };
        let operator_bytes: &[u8] = l1_batch.fee_account.0.as_slice();
        let operator = U256::from_big_endian(operator_bytes);
        let timestamp = U256::from_u64(l1_batch.timestamp);
        let number = U256::from_u64(l1_batch.number as u64);
        let pubdata_price = U256::from_u64(l1_batch.fair_pubdata_price);
        let l2_gas_price = U256::from_u64(l1_batch.fair_l2_gas_price);
        let base_fee = U256::from_u64(l1_batch.batch_base_fee);
        let ghost values = seq![
            operator@,
            prev_block_hash@,
            timestamp@,
            number@,
            pubdata_price@,
            l2_gas_price@,
            base_fee@,
            should_set_new_block@,
        ];
        assert(values =~= header_values(l1_batch));
        let mut memory: Vec<(usize, U256)> = Vec::new();
        memory.push((OPERATOR_ADDRESS_SLOT, operator));
        memory.push((PREV_BLOCK_HASH_SLOT, prev_block_hash));
        memory.push((NEW_BLOCK_TIMESTAMP_SLOT, timestamp));
        memory.push((NEW_BLOCK_NUMBER_SLOT, number));
        memory.push((FAIR_PUBDATA_PRICE_SLOT, pubdata_price));
        memory.push((FAIR_L2_GAS_PRICE_SLOT, l2_gas_price));
        memory.push((EXPECTED_BASE_FEE_SLOT, base_fee));
        memory.push((SHOULD_SET_NEW_BLOCK_SLOT, should_set_new_block));
        let ghost header = memory@;
        assert(header =~= seq![
            (0usize, operator),
            (1usize, prev_block_hash),
            (2usize, timestamp),
            (3usize, number),
            (4usize, pubdata_price),
            (5usize, l2_gas_price),
            (6usize, base_fee),
            (7usize, should_set_new_block),
        ]);
        assert(forall|i: int| 0 <= i < 8 ==> header[i].0 == i && header[i].1@ == values[i]);
        Self::append_oracle_calldata(&mut memory, l1_batch);
        assert forall|i: int| 0 <= i < 8 implies memory@[i] == header[i] by {
            assert(memory@.subrange(0, 8)[i] == memory@[i]);
        }
        proof {
            lemma_initial_memory_slots(l1_batch, memory@);
        }
        assert(memory@[0] == header[0]);
        assert(memory@[1] == header[1]);
        assert(operator.0@ =~= zeros(12) + l1_batch.fee_account@);
        assert(prev_block_hash.0@ =~= match l1_batch.previous_batch_hash {
            Some(h) => h@,
            None => zeros(32),
        });
        memory
    }

    /// Writes the oracle calldata to bootloader memory: slot 8 holds the
    /// calldata length, slots 9.. the calldata bytes in 32-byte words.
    pub fn append_oracle_calldata(memory: &mut Vec<(usize, U256)>, l1_batch: &L1BatchEnv)
        requires
            oracle_calldata_fits(l1_batch),
        ensures
            final(memory)@.subrange(0, old(memory)@.len() as int) == old(memory)@,
            is_oracle_region(final(memory)@, old(memory)@.len() as int, oracle_calldata_of(l1_batch)),
            final(memory)@[old(memory)@.len() as int].0 == ORACLE_CALLDATA_BEGIN_SLOT,
            final(memory)@[old(memory)@.len() as int].1@ == oracle_calldata_of(l1_batch).len(),
            forall|k: int|
                0 <= k < final(memory)@.len() - old(memory)@.len() - 1 ==> (#[trigger] final(memory)@[old(memory)@.len() + 1 + k]).0 == 9 + k,
    {
        let ghost start = memory@.len() as int;
        let ghost data = oracle_calldata_of(l1_batch);
        let calldata = match &l1_batch.oracle_calldata {
            Some(data) => data,
            None => {
                memory.push((ORACLE_CALLDATA_BEGIN_SLOT, U256::zero()));
                return;
            },
        };
        let calldata_len = calldata.len();
        if calldata_len == 0 {
            memory.push((ORACLE_CALLDATA_BEGIN_SLOT, U256::zero()));
            return;
        }
        memory.push((ORACLE_CALLDATA_BEGIN_SLOT, U256::from_u64(calldata_len as u64)));
        assert(memory@.subrange(0, start) =~= old(memory)@);
        let mut slot = ORACLE_CALLDATA_BEGIN_SLOT + 1;
        let mut start_byte: usize = 0;
        let ghost k: int = 0;
        while start_byte < calldata_len
            invariant
                calldata@ == data,
                calldata_len == data.len(),
                calldata_len <= MAX_ORACLE_CALLDATA_BYTES,
                start_byte == 32 * k,
                0 <= k <= num_words(data.len()),
                k < num_words(data.len()) <==> start_byte < calldata_len,
                slot == ORACLE_CALLDATA_BEGIN_SLOT + 1 + k,
                start == old(memory)@.len(),
                memory@.len() == start + 1 + k,
                memory@.subrange(0, start) == old(memory)@,
                memory@[start].0 == ORACLE_CALLDATA_BEGIN_SLOT,
                memory@[start].1@ == data.len(),
                forall|i: int|
                    0 <= i < k ==> {
                        &&& (#[trigger] memory@[start + 1 + i]).0 == ORACLE_CALLDATA_BEGIN_SLOT + 1 + i
                        &&& memory@[start + 1 + i].1.0@ == calldata_word(data, i)
                    },
            decreases calldata_len + 32 - start_byte,
        {
            let mut padded = [0u8; 32];
            let mut j: usize = 0;
            while j < 32
                invariant
                    calldata@ == data,
                    calldata_len == data.len(),
                    start_byte == 32 * k,
                    start_byte < calldata_len,
                    calldata_len <= MAX_ORACLE_CALLDATA_BYTES,
                    j <= 32,
                    forall|i: int| 0 <= i < j ==> padded@[i] == calldata_word(data, k)[i],
                    forall|i: int| j <= i < 32 ==> padded@[i] == 0u8,
                decreases 32 - j,
            {
                if start_byte + j < calldata_len {
                    padded[j] = calldata[start_byte + j];
                }
                j = j + 1;
            }
            assert(padded@ =~= calldata_word(data, k));
            let word = U256::from_big_endian(&padded);
            assert(word.0@ =~= calldata_word(data, k));
            let ghost before = memory@;
            memory.push((slot, word));
            assert(memory@.subrange(0, start) =~= before.subrange(0, start));
            assert(memory@[start] == before[start]);
            slot = slot + 1;
            start_byte = start_byte + 32;
            proof {
                k = k + 1;
            }
        }
    }
}

} // verus!
