use state_keeper_oracle::bootloader::{
    BootloaderState, L1BatchEnv, MAX_ORACLE_CALLDATA_BYTES, ORACLE_CALLDATA_BEGIN_SLOT,
};
use state_keeper_oracle::primitives::{Address, H256, U256};

fn env(calldata: Option<Vec<u8>>) -> L1BatchEnv {
    L1BatchEnv {
        previous_batch_hash: None,
        number: 7,
        timestamp: 1_700_000_000,
        fair_pubdata_price: 1_000,
        fair_l2_gas_price: 250_000_000,
        batch_base_fee: 250_000_000,
        fee_account: Address::repeat_byte(0x11),
        oracle_calldata: calldata,
    }
}

/// What the bootloader reads back: length at slot 8, bytes from slot 9 on.
fn read_back(memory: &[(usize, U256)]) -> Vec<u8> {
    let len_word = memory[ORACLE_CALLDATA_BEGIN_SLOT].1;
    let mut len: usize = 0;
    for b in len_word.0.iter() {
        len = len * 256 + *b as usize;
    }
    let mut bytes = Vec::new();
    for (_, word) in &memory[ORACLE_CALLDATA_BEGIN_SLOT + 1..] {
        bytes.extend_from_slice(&word.0);
    }
    bytes.truncate(len);
    bytes
}

#[test]
fn header_slots_hold_batch_fields() {
    let memory = BootloaderState::initial_memory(&env(None));
    let mut operator = [0u8; 32];
    for b in operator[12..].iter_mut() {
        *b = 0x11;
    }
    assert_eq!(memory[0], (0, U256(operator)));
    assert_eq!(memory[1], (1, U256::zero()));
    assert_eq!(memory[2], (2, U256::from_u64(1_700_000_000)));
    assert_eq!(memory[3], (3, U256::from_u64(7)));
    assert_eq!(memory[4], (4, U256::from_u64(1_000)));
    assert_eq!(memory[5], (5, U256::from_u64(250_000_000)));
    assert_eq!(memory[6], (6, U256::from_u64(250_000_000)));
    assert_eq!(memory[7], (7, U256::zero()));
}

#[test]
fn previous_hash_sets_new_block_flag() {
    let mut e = env(None);
    e.previous_batch_hash = Some(H256([0xAB; 32]));
    let memory = BootloaderState::initial_memory(&e);
    assert_eq!(memory[1], (1, U256([0xAB; 32])));
    assert_eq!(memory[7], (7, U256::one()));
}

#[test]
fn no_calldata_writes_zero_length() {
    let memory = BootloaderState::initial_memory(&env(None));
    assert_eq!(memory.len(), 9);
    assert_eq!(memory[8], (8, U256::zero()));
}

#[test]
fn empty_calldata_writes_zero_length() {
    let memory = BootloaderState::initial_memory(&env(Some(vec![])));
    assert_eq!(memory.len(), 9);
    assert_eq!(memory[8], (8, U256::zero()));
}

#[test]
fn short_calldata_is_left_aligned_in_one_word() {
    let memory = BootloaderState::initial_memory(&env(Some(vec![1, 2, 3, 4, 5])));
    assert_eq!(memory.len(), 10);
    assert_eq!(memory[8], (8, U256::from_u64(5)));
    let mut word = [0u8; 32];
    word[..5].copy_from_slice(&[1, 2, 3, 4, 5]);
    assert_eq!(memory[9], (9, U256(word)));
}

#[test]
fn calldata_of_33_bytes_takes_two_words() {
    let data: Vec<u8> = (1..=33).collect();
    let memory = BootloaderState::initial_memory(&env(Some(data.clone())));
    assert_eq!(memory.len(), 11);
    assert_eq!(memory[8], (8, U256::from_u64(33)));
    let mut first = [0u8; 32];
    first.copy_from_slice(&data[..32]);
    assert_eq!(memory[9], (9, U256(first)));
    let mut second = [0u8; 32];
    second[0] = 33;
    assert_eq!(memory[10], (10, U256(second)));
}

#[test]
fn calldata_of_exactly_one_word() {
    let data = vec![0x5A; 32];
    let memory = BootloaderState::initial_memory(&env(Some(data)));
    assert_eq!(memory.len(), 10);
    assert_eq!(memory[9], (9, U256([0x5A; 32])));
}

#[test]
fn largest_calldata_fills_the_reserved_slots() {
    assert_eq!(MAX_ORACLE_CALLDATA_BYTES, 736);
    let data: Vec<u8> = (0..736).map(|i| (i % 251) as u8).collect();
    let memory = BootloaderState::initial_memory(&env(Some(data.clone())));
    assert_eq!(memory.len(), 32);
    assert_eq!(memory[31].0, 31);
    assert_eq!(read_back(&memory), data);
}

#[test]
fn slots_are_consecutive_from_zero() {
    let data: Vec<u8> = (0..100).map(|i| i as u8).collect();
    let memory = BootloaderState::initial_memory(&env(Some(data)));
    for (i, (slot, _)) in memory.iter().enumerate() {
        assert_eq!(*slot, i);
    }
}

#[test]
fn calldata_reads_back() {
    for len in [1usize, 31, 32, 33, 64, 65, 300, 735] {
        let data: Vec<u8> = (0..len).map(|i| (i * 7 % 256) as u8).collect();
        let memory = BootloaderState::initial_memory(&env(Some(data.clone())));
        assert_eq!(read_back(&memory), data);
        let last = memory.last().unwrap().1;
        let used = len - 32 * ((len - 1) / 32);
        assert!(last.0[used..].iter().all(|b| *b == 0));
    }
}

#[test]
fn append_keeps_existing_memory() {
    let mut memory = vec![(0usize, U256::from_u64(42))];
    BootloaderState::append_oracle_calldata(&mut memory, &env(Some(vec![0xFF])));
    assert_eq!(memory.len(), 3);
    assert_eq!(memory[0], (0, U256::from_u64(42)));
    assert_eq!(memory[1], (8, U256::from_u64(1)));
}

#[test]
fn words_from_integers_and_bytes() {
    let w = U256::from_u64(0x0102030405060708);
    let mut expected = [0u8; 32];
    expected[24..].copy_from_slice(&[1, 2, 3, 4, 5, 6, 7, 8]);
    assert_eq!(w, U256(expected));
    assert_eq!(U256::from_big_endian(&[1, 2, 3, 4, 5, 6, 7, 8]), w);
    assert_eq!(U256::from_u64(u64::MAX).0[24..], [0xFF; 8]);
    assert_eq!(U256::one().0[31], 1);
    assert_eq!(U256::from_big_endian(&[]), U256::zero());
}
