use evm_in_rust::{Address, Account, Evm, EvmConfig, EvmError, Halt, Word, World};

fn run_code(code: Vec<u8>) -> (Evm, Result<(), EvmError>) {
    let mut evm = Evm::new(code, EvmConfig::default());
    let r = evm.run();
    (evm, r)
}

#[test]
fn simple_add() {
    // PUSH1 0x42; PUSH1 0xFF; ADD
    let code = vec![0x60, 0x42, 0x60, 0xFF, 0x01];
    let mut evm = Evm::new(code, EvmConfig::default());
    evm.run().unwrap();
    assert_eq!(evm.stack.len(), 1);
    assert_eq!(evm.stack[0], Word::from_u64(0x42u64 + 0xFFu64));
}

#[test]
fn push32_and_pop() {
    // PUSH32 0x01.. then POP
    let mut code = vec![0x7f];
    code.extend(std::iter::repeat(0u8).take(31));
    code.push(1);
    code.push(0x50); // POP
    let mut evm = Evm::new(code, EvmConfig::default());
    evm.run().unwrap();
    assert!(evm.stack.is_empty());
}

#[test]
fn add_then_stop_costs_nine() {
    let (evm, r) = run_code(vec![0x60, 0x01, 0x60, 0x01, 0x01, 0x00]);
    assert_eq!(r, Ok(()));
    assert_eq!(evm.halted, Some(Halt::Stop));
    assert_eq!(evm.stack, vec![Word::from_u64(2)]);
    assert_eq!(evm.gas, 10_000_000 - 9);
}

#[test]
fn sub_wraps_top_minus_second() {
    let (evm, r) = run_code(vec![0x60, 0x05, 0x60, 0x03, 0x03, 0x00]);
    assert_eq!(r, Ok(()));
    let max = u64::MAX;
    assert_eq!(evm.stack, vec![Word { w0: max - 1, w1: max, w2: max, w3: max }]);
}

#[test]
fn jump_to_non_jumpdest_fails() {
    let (_, r) = run_code(vec![0x60, 0x00, 0x56]);
    assert_eq!(r, Err(EvmError::InvalidJump(0)));
}

#[test]
fn endless_loop_runs_out_of_gas() {
    let mut evm = Evm::new(
        vec![0x5B, 0x60, 0x00, 0x56],
        EvmConfig { gas_limit: 100, ..EvmConfig::default() },
    );
    let mut steps = 0;
    let r = loop {
        match evm.step() {
            Ok(()) => steps += 1,
            Err(e) => break e,
        }
    };
    assert_eq!(r, EvmError::OutOfGas);
    assert!(steps <= 60);
    assert!(steps / 3 <= 20);
}

#[test]
fn log0_records_memory() {
    let (evm, r) = run_code(vec![0x60, 0x41, 0x60, 0x00, 0x53, 0x60, 0x01, 0x60, 0x00, 0xA0, 0x00]);
    assert_eq!(r, Ok(()));
    assert_eq!(evm.halted, Some(Halt::Stop));
    assert_eq!(evm.logs.len(), 1);
    assert!(evm.logs[0].topics.is_empty());
    assert_eq!(evm.logs[0].data, vec![0x41]);
}

fn address_a() -> Address {
    Address::from_be_bytes(&[0xaa; 20])
}

fn world_with_a() -> World {
    let mut world = World::new();
    let mut account = Account::default();
    account.balance = Word::from_u64(0x10);
    account.code = vec![0x47, 0x00];
    world.insert(address_a(), account);
    world
}

/// Code that calls `to` with no input and no output: the seven operands
/// from the bottom up, then CALL and STOP.
fn call_code(to: &Address) -> Vec<u8> {
    let mut code = vec![0x60, 0x00, 0x60, 0x00, 0x60, 0x00, 0x60, 0x00, 0x60, 0x00, 0x73];
    code.extend(to.to_be_bytes());
    code.extend([0x61, 0xff, 0xff, 0xF1, 0x00]);
    code
}

#[test]
fn call_to_account_succeeds() {
    let cfg = EvmConfig { world: Some(world_with_a()), ..EvmConfig::default() };
    let mut evm = Evm::new(call_code(&address_a()), cfg);
    assert_eq!(evm.run(), Ok(()));
    assert_eq!(evm.stack, vec![Word::from_u64(1)]);
    assert!(evm.last_return_data.is_empty());
}

#[test]
fn selfbalance_in_callee_reads_its_balance() {
    let cfg = EvmConfig {
        world: Some(world_with_a()),
        address: Some(address_a()),
        ..EvmConfig::default()
    };
    let mut evm = Evm::new(vec![0x47, 0x00], cfg);
    assert_eq!(evm.run(), Ok(()));
    assert_eq!(evm.stack, vec![Word::from_u64(0x10)]);
    assert_eq!(evm.gas, 10_000_000 - 5);
}

/// PUSH4 deadbeef; PUSH1 0; MSTORE; then CALL to address 4 with input
/// memory[28..32] and no output; STOP.
fn identity_code() -> Vec<u8> {
    vec![
        0x63, 0xde, 0xad, 0xbe, 0xef, 0x60, 0x00, 0x52, // store
        0x60, 0x00, 0x60, 0x00, 0x60, 0x04, 0x60, 0x1c, 0x60, 0x00, 0x60, 0x04, 0x61, 0xff, 0xff,
        0xF1, 0x00,
    ]
}

#[test]
fn identity_precompile_returns_input() {
    let (evm, r) = run_code(identity_code());
    assert_eq!(r, Ok(()));
    assert_eq!(evm.last_return_data, vec![0xde, 0xad, 0xbe, 0xef]);
    assert_eq!(evm.stack, vec![Word::from_u64(1)]);

    let cfg = EvmConfig { world: Some(world_with_a()), ..EvmConfig::default() };
    let mut evm = Evm::new(identity_code(), cfg);
    assert_eq!(evm.run(), Ok(()));
    assert_eq!(evm.last_return_data, vec![0xde, 0xad, 0xbe, 0xef]);
    assert_eq!(evm.stack, vec![Word::from_u64(1)]);
}

#[test]
fn errors_have_messages() {
    assert_eq!(EvmError::OutOfGas.message(), "out of gas");
    assert_eq!(EvmError::StackUnderflow.message(), "stack underflow");
    assert_eq!(EvmError::StackOverflow.message(), "stack overflow");
    assert_eq!(EvmError::InvalidJump(0).message(), "invalid jump destination 0");
    assert_eq!(EvmError::InvalidJump(1234).message(), "invalid jump destination 1234");
    assert_eq!(EvmError::InvalidOpcode(0x0c, 17).message(), "invalid opcode 0x0c at pc=17");
    assert_eq!(EvmError::InvalidOpcode(0xfe, 0).message(), "invalid opcode 0xfe at pc=0");
    assert_eq!(EvmError::MemoryAccess.message(), "memory access out of bounds");
    assert_eq!(EvmError::StaticViolation.message(), "state modification in static context");
}
