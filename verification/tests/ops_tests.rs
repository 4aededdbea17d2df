use evm_in_rust::hash::keccak_word;
use evm_in_rust::{Address, BlockEnv, Evm, EvmConfig, EvmError, Halt, Word};

const GAS: i128 = 10_000_000;

fn run_code(code: Vec<u8>) -> (Evm, Result<(), EvmError>) {
    let mut evm = Evm::new(code, EvmConfig::default());
    let r = evm.run();
    (evm, r)
}

fn top_of(code: Vec<u8>) -> Word {
    let (evm, r) = run_code(code);
    assert_eq!(r, Ok(()));
    *evm.stack.last().unwrap()
}

#[test]
fn binary_operations_take_the_top_as_left_operand() {
    // second operand is pushed first
    assert_eq!(top_of(vec![0x60, 3, 0x60, 4, 0x02]), Word::from_u64(12));
    assert_eq!(top_of(vec![0x60, 2, 0x60, 8, 0x04]), Word::from_u64(4));
    assert_eq!(top_of(vec![0x60, 8, 0x60, 2, 0x04]), Word::from_u64(0));
    assert_eq!(top_of(vec![0x60, 0, 0x60, 8, 0x04]), Word::from_u64(0));
    assert_eq!(top_of(vec![0x60, 2, 0x60, 1, 0x10]), Word::from_u64(1));
    assert_eq!(top_of(vec![0x60, 1, 0x60, 2, 0x10]), Word::from_u64(0));
    assert_eq!(top_of(vec![0x60, 1, 0x60, 2, 0x11]), Word::from_u64(1));
    assert_eq!(top_of(vec![0x60, 2, 0x60, 1, 0x11]), Word::from_u64(0));
    assert_eq!(top_of(vec![0x60, 7, 0x60, 7, 0x14]), Word::from_u64(1));
    assert_eq!(top_of(vec![0x60, 7, 0x60, 8, 0x14]), Word::from_u64(0));
    assert_eq!(top_of(vec![0x60, 0b1100, 0x60, 0b1010, 0x16]), Word::from_u64(0b1000));
    assert_eq!(top_of(vec![0x60, 0b1100, 0x60, 0b1010, 0x17]), Word::from_u64(0b1110));
    assert_eq!(top_of(vec![0x60, 0b1100, 0x60, 0b1010, 0x18]), Word::from_u64(0b0110));
}

#[test]
fn unary_operations() {
    assert_eq!(top_of(vec![0x60, 0, 0x15]), Word::from_u64(1));
    assert_eq!(top_of(vec![0x60, 5, 0x15]), Word::from_u64(0));
    let max = u64::MAX;
    assert_eq!(top_of(vec![0x60, 0, 0x19]), Word { w0: max, w1: max, w2: max, w3: max });
}

#[test]
fn each_instruction_has_its_cost() {
    let cases: Vec<(Vec<u8>, i128)> = vec![
        (vec![0x00], 0),
        (vec![0x60, 1, 0x60, 1, 0x02], 3 + 3 + 5),
        (vec![0x60, 1, 0x60, 1, 0x04], 3 + 3 + 5),
        (vec![0x60, 1, 0x60, 1, 0x10], 3 + 3 + 3),
        (vec![0x60, 1, 0x15], 3 + 3),
        (vec![0x5f], 2),
        (vec![0x30], 2),
        (vec![0x60, 1, 0x31], 3 + 100),
        (vec![0x60, 1, 0x3b], 3 + 100),
        (vec![0x60, 1, 0x3f], 3 + 400),
        (vec![0x40], 20),
        (vec![0x44], 2),
        (vec![0x47], 5),
        (vec![0x60, 1, 0x50], 3 + 2),
        (vec![0x60, 1, 0x54], 3 + 100),
        (vec![0x5b], 1),
        (vec![0x58], 2),
        (vec![0x59], 2),
        (vec![0x5a], 2),
        (vec![0x60, 1, 0x80], 3 + 3),
        (vec![0x60, 1, 0x60, 2, 0x90], 3 + 3 + 3),
        (vec![0x60, 0, 0x35], 3 + 3),
        // one word of memory costs 3
        (vec![0x60, 0, 0x51], 3 + 3 + 3),
        (vec![0x60, 1, 0x60, 0, 0x52], 3 + 3 + 3 + 3),
        (vec![0x60, 1, 0x60, 0, 0x53], 3 + 3 + 3 + 3),
        // two words of memory cost 6, hashing 33 bytes 30 + 6 * 2
        (vec![0x60, 33, 0x60, 0, 0x20], 3 + 3 + 30 + 12 + 6),
        // copying 33 bytes costs 3 + 3 * 2
        (vec![0x60, 33, 0x60, 0, 0x60, 0, 0x37], 9 + 9 + 6),
        (vec![0x60, 33, 0x60, 0, 0x60, 0, 0x39], 9 + 9 + 6),
        // RETURNDATACOPY 3 + 2, EXTCODECOPY 100 + 3 * 2
        (vec![0x60, 33, 0x60, 0, 0x60, 0, 0x3e], 9 + 5 + 6),
        (vec![0x60, 33, 0x60, 0, 0x60, 0, 0x60, 0, 0x3c], 12 + 106 + 6),
        (vec![0x60, 33, 0x60, 0, 0xa0], 6 + 8 + 2 + 6),
        (vec![0x60, 64, 0x60, 0, 0xf3], 6 + 6),
        (vec![0x60, 0, 0x60, 0, 0xfd], 6),
        // jump over a byte
        (vec![0x60, 4, 0x56, 0xfe, 0x5b], 3 + 8 + 1),
        (vec![0x60, 1, 0x60, 6, 0x57, 0xfe, 0x5b], 6 + 10 + 1),
        (vec![0x60, 0, 0x60, 6, 0x57, 0x00, 0x5b], 6 + 10),
    ];
    for (code, cost) in cases {
        let (evm, r) = run_code(code.clone());
        assert_eq!(r, Ok(()), "code {:?}", code);
        assert_eq!(GAS - evm.gas, cost, "code {:?}", code);
    }
}

#[test]
fn memory_expansion_is_charged_by_the_word() {
    // MSTORE at offset 1024 * 32 - 32 fills 1024 words: 3 * 1024 + 1024^2 / 512
    let (evm, r) = run_code(vec![0x60, 1, 0x61, 0x7f, 0xe0, 0x52]);
    assert_eq!(r, Ok(()));
    assert_eq!(evm.memory.len(), 32768);
    assert_eq!(GAS - evm.gas, 3 + 3 + 3 + 3072 + 2048);
    // a second access within the memory costs no more than the instruction
    let (evm, r) = run_code(vec![0x60, 1, 0x60, 32, 0x52, 0x60, 0, 0x51]);
    assert_eq!(r, Ok(()));
    assert_eq!(GAS - evm.gas, (3 + 3 + 3 + 6) + (3 + 3));
}

#[test]
fn memory_grows_to_whole_words() {
    let (evm, r) = run_code(vec![0x60, 0x41, 0x60, 33, 0x53, 0x59]);
    assert_eq!(r, Ok(()));
    assert_eq!(evm.memory.len(), 64);
    assert_eq!(evm.memory[33], 0x41);
    assert_eq!(evm.stack, vec![Word::from_u64(64)]);
}

#[test]
fn mstore_then_mload_gives_the_word_back() {
    let mut code = vec![0x7f];
    code.extend((1..=32).collect::<Vec<u8>>());
    code.extend([0x60, 5, 0x52, 0x60, 5, 0x51]);
    let (evm, r) = run_code(code);
    assert_eq!(r, Ok(()));
    let bytes: Vec<u8> = (1..=32).collect();
    assert_eq!(evm.stack, vec![Word::from_be_bytes(&bytes)]);
    assert_eq!(&evm.memory[5..37], &bytes[..]);
    assert_eq!(evm.memory.len(), 64);
}

#[test]
fn sha3_hashes_memory() {
    let (evm, r) = run_code(vec![0x60, 0x61, 0x60, 0, 0x53, 0x60, 1, 0x60, 0, 0x20]);
    assert_eq!(r, Ok(()));
    assert_eq!(evm.stack, vec![keccak_word(b"a")]);
    assert_eq!(top_of(vec![0x60, 0, 0x60, 0, 0x20]), keccak_word(b""));
}

#[test]
fn context_values_are_pushed() {
    let a = Address::from_be_bytes(&[0xaa; 20]);
    let b = Address::from_be_bytes(&[0xbb; 20]);
    let c = Address::from_be_bytes(&[0xcc; 20]);
    let block = BlockEnv {
        coinbase: Address::from_low_u64_be(0xff),
        timestamp: 456,
        number: 123,
        gas_limit: Word::from_u64(30_000_000),
        chain_id: Word::from_u64(1),
        basefee: Word::from_u64(10),
    };
    let cfg = EvmConfig {
        gas_limit: 1000,
        calldata: vec![1, 2, 3],
        address: Some(a),
        caller: Some(b),
        origin: Some(c),
        value: Word::from_u64(5),
        gas_price: Word::from_u64(7),
        block,
        world: None,
    };
    // ADDRESS CALLER ORIGIN CALLVALUE GASPRICE COINBASE TIMESTAMP NUMBER PREVRANDAO
    // GASLIMIT CHAINID SELFBALANCE BASEFEE BLOCKHASH CALLDATASIZE CODESIZE
    // RETURNDATASIZE PC MSIZE GAS
    let code = vec![
        0x30, 0x33, 0x32, 0x34, 0x3a, 0x41, 0x42, 0x43, 0x44, 0x45, 0x46, 0x47, 0x48, 0x40, 0x36,
        0x38, 0x3d, 0x58, 0x59, 0x5a,
    ];
    let mut evm = Evm::new(code, cfg);
    assert_eq!(evm.run(), Ok(()));
    let used_before_gas = 2 * 11 + 5 + 2 + 20 + 2 * 5;
    assert_eq!(
        evm.stack,
        vec![
            a.to_word(),
            b.to_word(),
            c.to_word(),
            Word::from_u64(5),
            Word::from_u64(7),
            Word::from_u64(0xff),
            Word::from_u64(456),
            Word::from_u64(123),
            Word::zero(),
            Word::from_u64(30_000_000),
            Word::from_u64(1),
            Word::zero(),
            Word::from_u64(10),
            Word::zero(),
            Word::from_u64(3),
            Word::from_u64(20),
            Word::zero(),
            Word::from_u64(17),
            Word::zero(),
            Word::from_u64(1000 - used_before_gas),
        ]
    );
    assert_eq!(evm.gas, 1000 - used_before_gas as i128 - 2);
}

#[test]
fn unset_addresses_read_as_zero() {
    assert_eq!(run_code(vec![0x30, 0x33, 0x32]).0.stack, vec![Word::zero(); 3]);
}

#[test]
fn calldataload_pads_with_zeros_past_the_end() {
    let cfg = EvmConfig { calldata: vec![0x01, 0x02, 0x03], ..EvmConfig::default() };
    let mut evm = Evm::new(vec![0x60, 1, 0x35, 0x60, 3, 0x35, 0x7f], cfg);
    assert_eq!(evm.step(), Ok(()));
    assert_eq!(evm.step(), Ok(()));
    let mut bytes = [0u8; 32];
    bytes[0] = 2;
    bytes[1] = 3;
    assert_eq!(evm.stack, vec![Word::from_be_bytes(&bytes)]);
    assert_eq!(evm.step(), Ok(()));
    assert_eq!(evm.step(), Ok(()));
    assert_eq!(evm.stack[1], Word::zero());
}

#[test]
fn calldataload_with_a_huge_offset_reads_zero() {
    let cfg = EvmConfig { calldata: vec![0x01, 0x02, 0x03], ..EvmConfig::default() };
    let mut code = vec![0x7f];
    code.extend([0xff; 32]);
    code.push(0x35);
    let mut evm = Evm::new(code, cfg);
    assert_eq!(evm.run(), Ok(()));
    assert_eq!(evm.stack, vec![Word::zero()]);
}

#[test]
fn copies_pad_with_zeros() {
    let cfg = EvmConfig { calldata: vec![0x11, 0x22, 0x33], ..EvmConfig::default() };
    // fill memory[0..32] with ff, then CALLDATACOPY 5 bytes from offset 1 to memory offset 2
    let mut code = vec![0x7f];
    code.extend([0xff; 32]);
    code.extend([0x60, 0, 0x52, 0x60, 5, 0x60, 1, 0x60, 2, 0x37]);
    let mut evm = Evm::new(code.clone(), cfg);
    assert_eq!(evm.run(), Ok(()));
    assert_eq!(&evm.memory[0..9], &[0xff, 0xff, 0x22, 0x33, 0, 0, 0, 0xff, 0xff]);
    // CODECOPY of the first 3 bytes of the code to memory offset 0
    let (evm, r) = run_code(vec![0x60, 3, 0x60, 0, 0x60, 0, 0x39]);
    assert_eq!(r, Ok(()));
    assert_eq!(&evm.memory[0..4], &[0x60, 3, 0x60, 0]);
}

#[test]
fn push_reads_the_bytes_that_are_there() {
    let (evm, r) = run_code(vec![0x61, 0x01]);
    assert_eq!(r, Ok(()));
    assert_eq!(evm.stack, vec![Word::from_u64(1)]);
    assert_eq!(evm.pc, 2);
    let (evm, r) = run_code(vec![0x61, 0x01, 0x02]);
    assert_eq!(r, Ok(()));
    assert_eq!(evm.stack, vec![Word::from_u64(0x0102)]);
    assert_eq!(evm.pc, 3);
    let (evm, r) = run_code(vec![0x7f]);
    assert_eq!(r, Ok(()));
    assert_eq!(evm.stack, vec![Word::zero()]);
    assert_eq!(evm.pc, 1);
    assert_eq!(evm.halted, None);
}

#[test]
fn dup_and_swap_reach_into_the_stack() {
    let (evm, _) = run_code(vec![0x60, 1, 0x60, 2, 0x60, 3, 0x82]);
    assert_eq!(evm.stack, [1u64, 2, 3, 1].map(Word::from_u64).to_vec());
    let (evm, _) = run_code(vec![0x60, 1, 0x60, 2, 0x60, 3, 0x91]);
    assert_eq!(evm.stack, [3u64, 2, 1].map(Word::from_u64).to_vec());
    let (evm, _) = run_code(vec![0x60, 1, 0x60, 2, 0x60, 3, 0x90]);
    assert_eq!(evm.stack, [1u64, 3, 2].map(Word::from_u64).to_vec());
    assert_eq!(run_code(vec![0x60, 1, 0x81]).1, Err(EvmError::StackUnderflow));
    assert_eq!(run_code(vec![0x60, 1, 0x90]).1, Err(EvmError::StackUnderflow));
    let mut code = Vec::new();
    for i in 1..=17u8 {
        code.extend([0x60, i]);
    }
    let mut dup16 = code.clone();
    dup16.push(0x8f);
    assert_eq!(*run_code(dup16).0.stack.last().unwrap(), Word::from_u64(2));
    code.push(0x9f);
    let evm = run_code(code).0;
    assert_eq!(evm.stack[0], Word::from_u64(17));
    assert_eq!(evm.stack[16], Word::from_u64(1));
}

#[test]
fn jumps_land_on_jumpdests_only() {
    // PUSH1 0x5b is data: position 1 is no target, position 2 is one
    assert_eq!(run_code(vec![0x60, 0x5b, 0x5b, 0x60, 1, 0x56]).1, Err(EvmError::InvalidJump(1)));
    let mut evm = Evm::new(vec![0x60, 0x5b, 0x5b, 0x60, 2, 0x56], EvmConfig {
        gas_limit: 30,
        ..EvmConfig::default()
    });
    assert_eq!(evm.run(), Err(EvmError::OutOfGas));
    let mut code = vec![0x7f];
    code.extend([0xff; 32]);
    code.push(0x56);
    assert_eq!(run_code(code).1, Err(EvmError::InvalidJump(usize::MAX)));
    // JUMPI does not look at the target when the condition is zero
    let (evm, r) = run_code(vec![0x60, 0, 0x60, 0xff, 0x57]);
    assert_eq!(r, Ok(()));
    assert_eq!(evm.pc, 5);
    assert_eq!(run_code(vec![0x60, 1, 0x60, 0xff, 0x57]).1, Err(EvmError::InvalidJump(0xff)));
}

#[test]
fn storage_costs_depend_on_the_transition() {
    // 0 -> 5, 5 -> 6, 6 -> 0, 0 -> 0, then SLOAD
    let code = vec![
        0x60, 5, 0x60, 1, 0x55, 0x60, 6, 0x60, 1, 0x55, 0x60, 0, 0x60, 1, 0x55, 0x60, 0, 0x60, 1,
        0x55, 0x60, 1, 0x54,
    ];
    let mut evm = Evm::new(code, EvmConfig::default());
    let mut costs = Vec::new();
    for _ in 0..4 {
        evm.step().unwrap();
        evm.step().unwrap();
        let before = evm.gas;
        evm.step().unwrap();
        costs.push(before - evm.gas);
    }
    assert_eq!(costs, vec![20000, 2900, 5000, 2900]);
    assert_eq!(evm.refund, 15000);
    assert_eq!(evm.run(), Ok(()));
    assert_eq!(evm.stack, vec![Word::zero()]);
    assert_eq!(evm.storage.get(&Word::from_u64(1)), Some(Word::zero()));
    assert_eq!(evm.storage.get(&Word::from_u64(2)), None);
}

#[test]
fn sload_reads_what_sstore_wrote() {
    assert_eq!(top_of(vec![0x60, 9, 0x60, 1, 0x55, 0x60, 1, 0x54]), Word::from_u64(9));
    assert_eq!(top_of(vec![0x60, 1, 0x54]), Word::zero());
}

#[test]
fn return_and_revert_hand_out_memory() {
    let code = vec![0x60, 0xab, 0x60, 0, 0x53, 0x60, 2, 0x60, 0, 0xf3, 0x60, 1];
    let (evm, r) = run_code(code.clone());
    assert_eq!(r, Ok(()));
    assert_eq!(evm.halted, Some(Halt::Return));
    assert_eq!(evm.return_data, vec![0xab, 0]);
    assert!(evm.stack.is_empty());
    assert_eq!(evm.pc, code.len());
    let (evm, r) = run_code(vec![0x60, 0xab, 0x60, 0, 0x53, 0x60, 1, 0x60, 0, 0xfd]);
    assert_eq!(r, Ok(()));
    assert_eq!(evm.halted, Some(Halt::Revert));
    assert_eq!(evm.return_data, vec![0xab]);
}

#[test]
fn running_off_the_code_leaves_the_frame_running() {
    let (evm, r) = run_code(vec![0x60, 1]);
    assert_eq!(r, Ok(()));
    assert_eq!(evm.halted, None);
    assert_eq!(evm.pc, 2);
    let (evm, r) = run_code(vec![]);
    assert_eq!(r, Ok(()));
    assert_eq!(evm.gas, GAS);
}

#[test]
fn logs_keep_topics_in_stack_order() {
    // topics 3 and 4 pushed so that 3 leaves the stack first
    let code = vec![0x60, 0x41, 0x60, 0, 0x53, 0x60, 4, 0x60, 3, 0x60, 1, 0x60, 0, 0xa2];
    let (evm, r) = run_code(code);
    assert_eq!(r, Ok(()));
    assert_eq!(evm.logs.len(), 1);
    assert_eq!(evm.logs[0].topics, vec![Word::from_u64(3), Word::from_u64(4)]);
    assert_eq!(evm.logs[0].data, vec![0x41]);
    assert!(evm.stack.is_empty());
}

#[test]
fn every_error_has_an_input() {
    assert_eq!(run_code(vec![0x01]).1, Err(EvmError::StackUnderflow));
    assert_eq!(run_code(vec![0x60, 1, 0x01]).1, Err(EvmError::StackUnderflow));
    assert_eq!(run_code(vec![0x50]).1, Err(EvmError::StackUnderflow));
    assert_eq!(run_code(vec![0x60, 1, 0x52]).1, Err(EvmError::StackUnderflow));
    assert_eq!(run_code(vec![0x5f; 1025]).1, Err(EvmError::StackOverflow));
    assert_eq!(run_code(vec![0xfe]).1, Err(EvmError::InvalidOpcode(0xfe, 0)));
    assert_eq!(run_code(vec![0x5f, 0x05]).1, Err(EvmError::InvalidOpcode(0x05, 1)));
    assert_eq!(run_code(vec![0x5f, 0x56]).1, Err(EvmError::InvalidJump(0)));
    let mut huge = vec![0x7f];
    huge.extend([0xff; 32]);
    huge.push(0x51);
    assert_eq!(run_code(huge).1, Err(EvmError::MemoryAccess));
    let mut evm = Evm::new(vec![0x5f, 0x5f, 0x55], EvmConfig::default());
    evm.is_static = true;
    assert_eq!(evm.run(), Err(EvmError::StaticViolation));
    let mut evm = Evm::new(vec![0x5f], EvmConfig { gas_limit: 1, ..EvmConfig::default() });
    assert_eq!(evm.run(), Err(EvmError::OutOfGas));
}

#[test]
fn stack_never_passes_its_limit() {
    let (evm, r) = run_code(vec![0x5f; 2000]);
    assert_eq!(r, Err(EvmError::StackOverflow));
    assert_eq!(evm.stack.len(), 1024);
    assert_eq!(evm.pc, 1024);
    let (evm, r) = run_code(vec![0x5f; 1024]);
    assert_eq!(r, Ok(()));
    assert_eq!(evm.stack.len(), 1024);
}

#[test]
fn a_failing_step_leaves_the_frame_as_it_was() {
    let mut evm = Evm::new(vec![0x60, 7, 0x01], EvmConfig::default());
    evm.step().unwrap();
    let gas = evm.gas;
    assert_eq!(evm.step(), Err(EvmError::StackUnderflow));
    assert_eq!(evm.stack, vec![Word::from_u64(7)]);
    assert_eq!(evm.pc, 2);
    assert_eq!(evm.gas, gas);
    // the cost is taken off the meter where the gas runs out
    let mut evm = Evm::new(vec![0x60, 7, 0x60, 0, 0x52], EvmConfig {
        gas_limit: 10,
        ..EvmConfig::default()
    });
    assert_eq!(evm.run(), Err(EvmError::OutOfGas));
    assert_eq!(evm.gas, 4 - 6);
    assert_eq!(evm.stack.len(), 2);
    assert!(evm.memory.is_empty());
    assert_eq!(evm.pc, 4);
    assert_eq!(evm.step(), Err(EvmError::OutOfGas));
    assert_eq!(evm.gas, -2);
}

#[test]
fn a_frame_with_no_gas_left_can_stop() {
    let mut evm = Evm::new(vec![0x60, 1, 0x00], EvmConfig { gas_limit: 3, ..EvmConfig::default() });
    assert_eq!(evm.run(), Ok(()));
    assert_eq!(evm.gas, 0);
    assert_eq!(evm.halted, Some(Halt::Stop));
}

#[test]
fn a_frame_with_negative_gas_fails_at_once() {
    let mut evm = Evm::new(vec![0x00], EvmConfig { gas_limit: -1, ..EvmConfig::default() });
    assert_eq!(evm.run(), Err(EvmError::OutOfGas));
    assert_eq!(evm.gas, -1);
    assert_eq!(evm.halted, None);
}

#[test]
fn static_frames_reject_logs() {
    let mut evm = Evm::new(vec![0x5f, 0x5f, 0xa0], EvmConfig::default());
    evm.is_static = true;
    assert_eq!(evm.run(), Err(EvmError::StaticViolation));
    assert!(evm.logs.is_empty());
    assert_eq!(evm.stack.len(), 2);
}
