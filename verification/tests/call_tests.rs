use evm_in_rust::machine::precompile;
use evm_in_rust::rlp::{create2_address, create_address};
use evm_in_rust::{Account, Address, Evm, EvmConfig, EvmError, Word, World};

const GAS: i128 = 10_000_000;

fn addr(byte: u8) -> Address {
    Address::from_be_bytes(&[byte; 20])
}

fn account(balance: u64, code: Vec<u8>) -> Account {
    let mut a = Account::default();
    a.balance = Word::from_u64(balance);
    a.code = code;
    a
}

fn push_addr(code: &mut Vec<u8>, a: &Address) {
    code.push(0x73);
    code.extend(a.to_be_bytes());
}

/// A call of kind `op` to `to` with `value`, no input, and `out_len` bytes
/// of output at memory offset 0.
fn call(op: u8, to: &Address, value: u8, out_len: u8) -> Vec<u8> {
    let mut code = vec![0x60, out_len, 0x60, 0, 0x60, 0, 0x60, 0];
    if op == 0xf1 || op == 0xf2 {
        code.extend([0x60, value]);
    }
    push_addr(&mut code, to);
    code.extend([0x62, 0x0f, 0xff, 0xff, op]);
    code
}

fn world_of(entries: Vec<(Address, Account)>) -> World {
    let mut w = World::new();
    for (a, acc) in entries {
        w.insert(a, acc);
    }
    w
}

fn frame(code: Vec<u8>, me: Address, world: World) -> Evm {
    Evm::new(code, EvmConfig { address: Some(me), world: Some(world), ..EvmConfig::default() })
}

fn balance(evm: &Evm, a: &Address) -> Word {
    evm.world.as_ref().unwrap().balance_of(a)
}

// callee codes
fn returns_byte(b: u8) -> Vec<u8> {
    vec![0x60, b, 0x60, 0, 0x53, 0x60, 1, 0x60, 0, 0xf3]
}

fn stores_then(last: u8) -> Vec<u8> {
    // SSTORE 7 at key 1, then `last` with (0, 0)
    vec![0x60, 7, 0x60, 1, 0x55, 0x60, 0, 0x60, 0, last]
}

#[test]
fn call_moves_value_and_returns_data() {
    let (me, to) = (addr(0x01), addr(0x02));
    let world = world_of(vec![(me, account(100, vec![])), (to, account(5, returns_byte(0xab)))]);
    let mut evm = frame(call(0xf1, &to, 30, 2), me, world);
    assert_eq!(evm.run(), Ok(()));
    assert_eq!(evm.stack, vec![Word::one()]);
    assert_eq!(evm.last_return_data, vec![0xab]);
    assert_eq!(&evm.memory[0..2], &[0xab, 0]);
    assert_eq!(balance(&evm, &me), Word::from_u64(70));
    assert_eq!(balance(&evm, &to), Word::from_u64(35));
    // five pushes of one byte, the address, the gas, then the call: one word
    // of memory, the base cost with value, and 40
    assert_eq!(GAS - evm.gas, 5 * 3 + 3 + 3 + (3 + 9700 + 40));
}

#[test]
fn call_without_value_costs_less() {
    let (me, to) = (addr(0x01), addr(0x02));
    let world = world_of(vec![(to, account(0, vec![0x00]))]);
    let mut evm = frame(call(0xf1, &to, 0, 0), me, world);
    assert_eq!(evm.run(), Ok(()));
    assert_eq!(evm.stack, vec![Word::one()]);
    assert_eq!(GAS - evm.gas, 5 * 3 + 3 + 3 + (700 + 40));
}

#[test]
fn callee_sees_its_context() {
    let (me, to) = (addr(0x01), addr(0x02));
    // CALLER, ADDRESS, CALLVALUE, GAS stored at keys 0..3
    let callee = vec![0x33, 0x5f, 0x55, 0x30, 0x60, 1, 0x55, 0x34, 0x60, 2, 0x55, 0x5a, 0x60, 3, 0x55];
    let world = world_of(vec![(me, account(100, vec![])), (to, account(0, callee.clone()))]);
    let mut evm = frame(call(0xf1, &to, 9, 0), me, world);
    assert_eq!(evm.run(), Ok(()));
    assert_eq!(evm.stack, vec![Word::one()]);
    let w = evm.world.as_ref().unwrap();
    let storage = &w.get(&to).unwrap().storage;
    assert_eq!(storage.load(&Word::zero()), me.to_word());
    assert_eq!(storage.load(&Word::from_u64(1)), to.to_word());
    assert_eq!(storage.load(&Word::from_u64(2)), Word::from_u64(9));
    // requested 0x0fffff, stipend 2300, minus CALLER, PUSH0, SSTORE, ADDRESS, PUSH1,
    // SSTORE, CALLVALUE, PUSH1, SSTORE
    let used = 2 + 2 + 20000 + 2 + 3 + 20000 + 2 + 3 + 20000;
    assert_eq!(storage.load(&Word::from_u64(3)), Word::from_u64(0x0fffff + 2300 - used));
    // the frame's own storage is untouched
    assert_eq!(evm.storage.len(), 0);
}

#[test]
fn forwarded_gas_is_capped() {
    let (me, to) = (addr(0x01), addr(0x02));
    let world = world_of(vec![(to, account(0, vec![0x5a, 0x5f, 0x55]))]);
    let code = call(0xf1, &to, 0, 0);
    let mut evm = Evm::new(code, EvmConfig {
        gas_limit: 100_000,
        address: Some(me),
        world: Some(world),
        ..EvmConfig::default()
    });
    assert_eq!(evm.run(), Ok(()));
    let at_call = 100_000 - (5 * 3 + 3 + 3);
    let avail = at_call - 700;
    let forwarded = avail - avail / 64;
    let w = evm.world.as_ref().unwrap();
    assert_eq!(w.get(&to).unwrap().storage.load(&Word::zero()), Word::from_u64(forwarded));
    assert_eq!(evm.gas as u64, at_call - 740);
}

#[test]
fn reverting_callee_leaves_the_world_alone() {
    let (me, to) = (addr(0x01), addr(0x02));
    let world = world_of(vec![(me, account(100, vec![])), (to, account(5, stores_then(0xfd)))]);
    let before = world.clone();
    let mut evm = frame(call(0xf1, &to, 30, 0), me, world);
    assert_eq!(evm.run(), Ok(()));
    assert_eq!(evm.stack, vec![Word::zero()]);
    let after = evm.world.as_ref().unwrap();
    assert_eq!(after.len(), before.len());
    for i in 0..before.len() {
        assert_eq!(after.address_at(i), before.address_at(i));
        let (x, y) = (after.account_at(i), before.account_at(i));
        assert_eq!((x.nonce, x.balance, &x.code), (y.nonce, y.balance, &y.code));
        assert_eq!(x.storage.len(), y.storage.len());
    }
}

#[test]
fn revert_keeps_its_return_data() {
    let (me, to) = (addr(0x01), addr(0x02));
    let callee = vec![0x60, 0xcd, 0x60, 0, 0x53, 0x60, 1, 0x60, 0, 0xfd];
    let mut evm = frame(call(0xf1, &to, 0, 1), me, world_of(vec![(to, account(0, callee))]));
    assert_eq!(evm.run(), Ok(()));
    assert_eq!(evm.stack, vec![Word::zero()]);
    assert_eq!(evm.last_return_data, vec![0xcd]);
    assert_eq!(evm.memory[0], 0xcd);
}

#[test]
fn failing_callee_gives_zero_and_no_data() {
    let (me, to) = (addr(0x01), addr(0x02));
    // stores, then an invalid instruction
    let callee = vec![0x60, 7, 0x60, 1, 0x55, 0xfe];
    let mut code = vec![0x60, 0xff, 0x60, 0, 0x53];
    code.extend(call(0xf1, &to, 0, 1));
    code.extend([0x3d]);
    let mut evm = frame(code, me, world_of(vec![(to, account(0, callee))]));
    assert_eq!(evm.run(), Ok(()));
    assert_eq!(evm.stack, vec![Word::zero(), Word::zero()]);
    assert!(evm.last_return_data.is_empty());
    // the output region is filled with zeros
    assert_eq!(evm.memory[0], 0);
    assert_eq!(evm.world.as_ref().unwrap().get(&to).unwrap().storage.len(), 0);
}

#[test]
fn call_fails_where_the_balance_is_short() {
    let (me, to) = (addr(0x01), addr(0x02));
    let world = world_of(vec![(me, account(10, vec![])), (to, account(0, returns_byte(1)))]);
    let mut evm = frame(call(0xf1, &to, 30, 0), me, world);
    assert_eq!(evm.run(), Ok(()));
    assert_eq!(evm.stack, vec![Word::zero()]);
    assert!(evm.last_return_data.is_empty());
    assert_eq!(balance(&evm, &me), Word::from_u64(10));
}

#[test]
fn call_without_a_world_succeeds_with_nothing() {
    let mut evm = Evm::new(call(0xf1, &addr(2), 0, 0), EvmConfig::default());
    assert_eq!(evm.run(), Ok(()));
    assert_eq!(evm.stack, vec![Word::one()]);
    assert!(evm.last_return_data.is_empty());
    assert!(evm.world.is_none());
}

#[test]
fn staticcall_child_cannot_write() {
    let (me, to) = (addr(0x01), addr(0x02));
    let world = world_of(vec![(to, account(0, stores_then(0xf3)))]);
    let mut evm = frame(call(0xfa, &to, 0, 0), me, world);
    assert_eq!(evm.run(), Ok(()));
    assert_eq!(evm.stack, vec![Word::zero()]);
    assert!(evm.logs.is_empty());
    assert_eq!(evm.world.as_ref().unwrap().get(&to).unwrap().storage.len(), 0);
    assert_eq!(GAS - evm.gas, 4 * 3 + 3 + 3 + 740);
}

#[test]
fn staticcall_child_can_read() {
    let (me, to) = (addr(0x01), addr(0x02));
    let world = world_of(vec![(to, account(77, vec![0x47, 0x5f, 0x52, 0x60, 32, 0x5f, 0xf3]))]);
    let mut evm = frame(call(0xfa, &to, 0, 32), me, world);
    assert_eq!(evm.run(), Ok(()));
    assert_eq!(evm.stack, vec![Word::one()]);
    assert_eq!(evm.memory[31], 77);
    assert_eq!(evm.last_return_data.len(), 32);
}

#[test]
fn static_context_reaches_the_grandchild() {
    let (me, mid, leaf) = (addr(0x01), addr(0x02), addr(0x03));
    // mid calls leaf and returns the result flag; leaf writes storage
    let mut mid_code = call(0xf1, &leaf, 0, 0);
    mid_code.extend([0x5f, 0x52, 0x60, 32, 0x5f, 0xf3]);
    let world = world_of(vec![(mid, account(0, mid_code)), (leaf, account(0, stores_then(0x00)))]);
    let mut evm = frame(call(0xfa, &mid, 0, 32), me, world.clone());
    assert_eq!(evm.run(), Ok(()));
    assert_eq!(evm.stack, vec![Word::one()]);
    assert_eq!(evm.memory[31], 0);
    assert_eq!(evm.world.as_ref().unwrap().get(&leaf).unwrap().storage.len(), 0);
    // with a plain call at the root the leaf may write
    let mut evm = frame(call(0xf1, &mid, 0, 32), me, world);
    assert_eq!(evm.run(), Ok(()));
    assert_eq!(evm.memory[31], 1);
    assert_eq!(
        evm.world.as_ref().unwrap().get(&leaf).unwrap().storage.load(&Word::one()),
        Word::from_u64(7)
    );
}

#[test]
fn value_bearing_call_in_a_static_frame_is_a_violation() {
    let (me, to) = (addr(0x01), addr(0x02));
    let world = world_of(vec![(me, account(100, vec![])), (to, account(0, vec![0x00]))]);
    let mut evm = frame(call(0xf1, &to, 1, 0), me, world.clone());
    evm.is_static = true;
    assert_eq!(evm.run(), Err(EvmError::StaticViolation));
    assert_eq!(evm.stack.len(), 7);
    let mut evm = frame(call(0xf1, &to, 0, 0), me, world);
    evm.is_static = true;
    assert_eq!(evm.run(), Ok(()));
    assert_eq!(evm.stack, vec![Word::one()]);
}

#[test]
fn delegatecall_keeps_the_context() {
    let (me, lib, caller) = (addr(0x01), addr(0x02), addr(0x09));
    // CALLER, ADDRESS, CALLVALUE stored at keys 0..2
    let lib_code = vec![0x33, 0x5f, 0x55, 0x30, 0x60, 1, 0x55, 0x34, 0x60, 2, 0x55];
    let world = world_of(vec![(lib, account(0, lib_code))]);
    let mut evm = Evm::new(call(0xf4, &lib, 0, 0), EvmConfig {
        address: Some(me),
        caller: Some(caller),
        value: Word::from_u64(11),
        world: Some(world),
        ..EvmConfig::default()
    });
    assert_eq!(evm.run(), Ok(()));
    assert_eq!(evm.stack, vec![Word::one()]);
    let w = evm.world.as_ref().unwrap();
    assert_eq!(w.get(&lib).unwrap().storage.len(), 0);
    let storage = &w.get(&me).unwrap().storage;
    assert_eq!(storage.load(&Word::zero()), caller.to_word());
    assert_eq!(storage.load(&Word::one()), me.to_word());
    assert_eq!(storage.load(&Word::from_u64(2)), Word::from_u64(11));
}

#[test]
fn callcode_runs_foreign_code_on_own_storage() {
    let (me, lib) = (addr(0x01), addr(0x02));
    let lib_code = vec![0x33, 0x5f, 0x55, 0x30, 0x60, 1, 0x55, 0x34, 0x60, 2, 0x55];
    let world = world_of(vec![(me, account(50, vec![])), (lib, account(0, lib_code))]);
    let mut evm = frame(call(0xf2, &lib, 20, 0), me, world.clone());
    assert_eq!(evm.run(), Ok(()));
    assert_eq!(evm.stack, vec![Word::one()]);
    let w = evm.world.as_ref().unwrap();
    let storage = &w.get(&me).unwrap().storage;
    assert_eq!(storage.load(&Word::zero()), me.to_word());
    assert_eq!(storage.load(&Word::one()), me.to_word());
    assert_eq!(storage.load(&Word::from_u64(2)), Word::from_u64(20));
    assert_eq!(w.balance_of(&me), Word::from_u64(50));
    assert_eq!(w.balance_of(&lib), Word::zero());
    // more value than the balance fails
    let mut evm = frame(call(0xf2, &lib, 60, 0), me, world);
    assert_eq!(evm.run(), Ok(()));
    assert_eq!(evm.stack, vec![Word::zero()]);
}

#[test]
fn identity_precompile_ignores_the_world() {
    let me = addr(0x01);
    let four = Address::from_low_u64_be(4);
    // memory[0..32] = 0x..01020304, input memory[28..32], output 4 bytes at 64
    let mut code = vec![0x63, 1, 2, 3, 4, 0x60, 0, 0x52];
    code.extend([0x60, 4, 0x60, 64, 0x60, 4, 0x60, 28, 0x60, 0]);
    push_addr(&mut code, &four);
    code.extend([0x5f, 0xf1]);
    let world = world_of(vec![(four, account(0, vec![0xfe]))]);
    for w in [None, Some(world)] {
        let mut evm = Evm::new(code.clone(), EvmConfig {
            address: Some(me),
            world: w,
            ..EvmConfig::default()
        });
        assert_eq!(evm.run(), Ok(()));
        assert_eq!(evm.stack, vec![Word::one()]);
        assert_eq!(evm.last_return_data, vec![1, 2, 3, 4]);
        assert_eq!(&evm.memory[64..68], &[1, 2, 3, 4]);
        assert_eq!(evm.memory.len(), 96);
    }
}

#[test]
fn returndatacopy_reads_the_last_return_data() {
    let (me, to) = (addr(0x01), addr(0x02));
    let mut code = call(0xf1, &to, 0, 0);
    // RETURNDATASIZE; RETURNDATACOPY 3 bytes from offset 0 to memory 1
    code.extend([0x3d, 0x60, 3, 0x60, 0, 0x60, 1, 0x3e]);
    let mut evm = frame(code, me, world_of(vec![(to, account(0, returns_byte(0xab)))]));
    assert_eq!(evm.run(), Ok(()));
    assert_eq!(evm.stack, vec![Word::one(), Word::one()]);
    assert_eq!(&evm.memory[0..5], &[0, 0xab, 0, 0, 0]);
}

#[test]
fn logs_of_a_committed_child_follow_those_of_the_parent() {
    let (me, to) = (addr(0x01), addr(0x02));
    // LOG0 of one byte 0x0c
    let callee = vec![0x60, 0x0c, 0x5f, 0x53, 0x60, 1, 0x5f, 0xa0];
    let mut code = vec![0x60, 0x0a, 0x5f, 0x53, 0x60, 1, 0x5f, 0xa0];
    code.extend(call(0xf1, &to, 0, 0));
    code.extend([0x60, 0x0b, 0x5f, 0x53, 0x60, 1, 0x5f, 0xa0]);
    let mut evm = frame(code.clone(), me, world_of(vec![(to, account(0, callee.clone()))]));
    assert_eq!(evm.run(), Ok(()));
    let data: Vec<Vec<u8>> = evm.logs.iter().map(|l| l.data.clone()).collect();
    assert_eq!(data, vec![vec![0x0a], vec![0x0c], vec![0x0b]]);
    // a child that reverts leaves no logs
    let mut reverting = callee;
    reverting.extend([0x5f, 0x5f, 0xfd]);
    let mut evm = frame(code, me, world_of(vec![(to, account(0, reverting))]));
    assert_eq!(evm.run(), Ok(()));
    let data: Vec<Vec<u8>> = evm.logs.iter().map(|l| l.data.clone()).collect();
    assert_eq!(data, vec![vec![0x0a], vec![0x0b]]);
}

/// Init code that returns the one byte `b` as the code of the contract.
fn init_returning(b: u8) -> Vec<u8> {
    vec![0x60, b, 0x5f, 0x53, 0x60, 1, 0x5f, 0xf3]
}

/// Code that writes `init` to memory at 0 and creates with `value`.
fn create_code(op: u8, init: &[u8], value: u8, salt: u8) -> Vec<u8> {
    assert!(init.len() <= 32);
    let mut code = vec![0x7f];
    let mut word = init.to_vec();
    word.resize(32, 0);
    code.extend(word);
    code.extend([0x5f, 0x52]);
    if op == 0xf5 {
        code.extend([0x60, salt]);
    }
    code.extend([0x60, init.len() as u8, 0x5f, 0x60, value, op]);
    code
}

#[test]
fn create_deploys_the_returned_code() {
    let me = addr(0x01);
    let mut sender = account(100, vec![]);
    sender.nonce = 5;
    let init = init_returning(0xaa);
    let mut evm = frame(create_code(0xf0, &init, 40, 0), me, world_of(vec![(me, sender)]));
    assert_eq!(evm.run(), Ok(()));
    let created = create_address(&me, 5);
    assert_eq!(evm.stack, vec![created.to_word()]);
    let w = evm.world.as_ref().unwrap();
    assert_eq!(w.get(&created).unwrap().code, vec![0xaa]);
    assert_eq!(w.balance_of(&created), Word::from_u64(40));
    assert_eq!(w.balance_of(&me), Word::from_u64(60));
    assert_eq!(w.nonce_of(&me), 6);
    // PUSH32, PUSH0, MSTORE with one word, three pushes, CREATE
    assert_eq!(GAS - evm.gas, 3 + 2 + 6 + 3 + 2 + 3 + 32000);
}

#[test]
fn create2_uses_salt_and_code() {
    let me = addr(0x01);
    let init = init_returning(0xbb);
    let mut evm = frame(create_code(0xf5, &init, 0, 9), me, world_of(vec![]));
    assert_eq!(evm.run(), Ok(()));
    let created = create2_address(&me, &Word::from_u64(9), &init);
    assert_eq!(evm.stack, vec![created.to_word()]);
    let w = evm.world.as_ref().unwrap();
    assert_eq!(w.get(&created).unwrap().code, vec![0xbb]);
    assert_eq!(w.nonce_of(&me), 0);
}

#[test]
fn failed_create_pushes_zero_and_changes_nothing() {
    let me = addr(0x01);
    // init code reverts
    let init = vec![0x5f, 0x5f, 0xfd];
    let mut evm = frame(create_code(0xf0, &init, 1, 0), me, world_of(vec![(me, account(5, vec![]))]));
    assert_eq!(evm.run(), Ok(()));
    assert_eq!(evm.stack, vec![Word::zero()]);
    let w = evm.world.as_ref().unwrap();
    assert_eq!(w.len(), 1);
    assert_eq!(w.nonce_of(&me), 0);
    assert_eq!(w.balance_of(&me), Word::from_u64(5));
    // not enough balance
    let init = init_returning(1);
    let mut evm = frame(create_code(0xf0, &init, 9, 0), me, world_of(vec![(me, account(5, vec![]))]));
    assert_eq!(evm.run(), Ok(()));
    assert_eq!(evm.stack, vec![Word::zero()]);
    assert_eq!(evm.world.as_ref().unwrap().len(), 1);
    // no world
    let mut evm = Evm::new(create_code(0xf0, &init, 0, 0), EvmConfig::default());
    assert_eq!(evm.run(), Ok(()));
    assert_eq!(evm.stack, vec![Word::zero()]);
}

#[test]
fn create_in_a_static_frame_is_a_violation() {
    let me = addr(0x01);
    for op in [0xf0, 0xf5] {
        let mut evm = frame(vec![0x5f, 0x5f, 0x5f, 0x5f, op], me, world_of(vec![]));
        evm.is_static = true;
        assert_eq!(evm.run(), Err(EvmError::StaticViolation));
        assert_eq!(evm.stack.len(), 4);
    }
}

#[test]
fn call_needs_its_operands_and_its_gas() {
    let me = addr(0x01);
    let mut evm = frame(vec![0x5f, 0x5f, 0x5f, 0x5f, 0x5f, 0x5f, 0xf1], me, world_of(vec![]));
    assert_eq!(evm.run(), Err(EvmError::StackUnderflow));
    let mut evm = frame(vec![0x5f, 0x5f, 0x5f, 0x5f, 0x5f, 0xfa], me, world_of(vec![]));
    assert_eq!(evm.run(), Err(EvmError::StackUnderflow));
    let mut evm = Evm::new(call(0xf1, &addr(2), 0, 0), EvmConfig {
        gas_limit: 21 + 739,
        ..EvmConfig::default()
    });
    assert_eq!(evm.run(), Err(EvmError::OutOfGas));
    assert_eq!(evm.gas, -1);
    assert_eq!(evm.stack.len(), 7);
    let mut evm = Evm::new(call(0xf1, &addr(2), 0, 0), EvmConfig {
        gas_limit: 21 + 740,
        ..EvmConfig::default()
    });
    assert_eq!(evm.run(), Ok(()));
    assert_eq!(evm.gas, 0);
}

#[test]
fn nested_calls_end_when_the_gas_does() {
    let me = addr(0x01);
    // the account calls itself for ever
    let mut code = call(0xf1, &me, 0, 0);
    code.extend([0x00]);
    let mut evm = Evm::new(code.clone(), EvmConfig {
        gas_limit: 200_000,
        address: Some(me),
        world: Some(world_of(vec![(me, account(0, code))])),
        ..EvmConfig::default()
    });
    assert_eq!(evm.run(), Ok(()));
    assert_eq!(evm.stack.len(), 1);
}

#[test]
fn only_address_four_is_a_precompile() {
    assert_eq!(precompile(&Address::from_low_u64_be(4), &[1, 2, 3]), Some(vec![1, 2, 3]));
    assert_eq!(precompile(&Address::from_low_u64_be(4), &[]), Some(vec![]));
    assert_eq!(precompile(&Address::from_low_u64_be(3), &[1]), None);
    assert_eq!(precompile(&Address { a0: 4, a1: 1, a2: 0 }, &[1]), None);
    assert_eq!(precompile(&Address::zero(), &[1]), None);
}
