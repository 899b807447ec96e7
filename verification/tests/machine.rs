use turing_lock::cpu::{Cpu, RegisterId, VmError};
use turing_lock::decode::Instruction;
use turing_lock::rom::Rom;

fn rom(lines: &[&str]) -> Rom {
    Rom::new(lines.iter().map(|l| l.to_string()).collect())
}

#[test]
fn test_hlf() {
    let tests = [(10, 0), (7, 0), (0, 4)];
    let results = [(5, 0), (3, 0), (0, 2)];
    for (&(a, b), &(ar, br)) in tests.iter().zip(results.iter()) {
        let mut cpu = Cpu::new(Rom::new(vec![]));
        cpu.set_register(RegisterId::A, a);
        cpu.set_register(RegisterId::B, b);
        cpu.hlf(RegisterId::A);
        cpu.hlf(RegisterId::B);
        assert_eq!(ar, cpu.register_value(RegisterId::A));
        assert_eq!(br, cpu.register_value(RegisterId::B));
    }
}

#[test]
fn test_tpl() {
    let tests = [(10, 0), (0, 0)];
    let results = [(30, 0), (0, 0)];
    for (&(a, b), &(ar, br)) in tests.iter().zip(results.iter()) {
        let mut cpu = Cpu::new(Rom::new(vec![]));
        cpu.set_register(RegisterId::A, a);
        cpu.set_register(RegisterId::B, b);
        cpu.tpl(RegisterId::A);
        cpu.tpl(RegisterId::B);
        assert_eq!(ar, cpu.register_value(RegisterId::A));
        assert_eq!(br, cpu.register_value(RegisterId::B));
    }
}

#[test]
fn test_inc() {
    let tests = [(1, 0), (1, 1)];
    let results = [(2, 1), (2, 2)];
    for (&(a, b), &(ar, br)) in tests.iter().zip(results.iter()) {
        let mut cpu = Cpu::new(Rom::new(vec![]));
        cpu.set_register(RegisterId::A, a);
        cpu.set_register(RegisterId::B, b);
        cpu.inc(RegisterId::A);
        cpu.inc(RegisterId::B);
        assert_eq!(ar, cpu.register_value(RegisterId::A));
        assert_eq!(br, cpu.register_value(RegisterId::B));
    }
}

#[test]
fn run_three_increments() {
    let mut cpu = Cpu::new(rom(&["inc a", "inc a", "inc a"]));
    let result = cpu.run_to_completion(1000).unwrap();
    assert_eq!(result, Some((3, 0)));
    assert_eq!(cpu.register_value(RegisterId::A), 3);
    assert_eq!(cpu.register_value(RegisterId::B), 0);
}

#[test]
fn run_jump_if_one_skips_triple() {
    let mut cpu = Cpu::new(rom(&["inc a", "jio a, +2", "tpl a", "inc a"]));
    let result = cpu.run_to_completion(1000).unwrap();
    assert_eq!(result, Some((2, 0)));
}

#[test]
fn run_unconditional_jump_skips_triple() {
    let mut cpu = Cpu::new(rom(&["inc a", "jmp +2", "tpl a", "inc a"]));
    let result = cpu.run_to_completion(1000).unwrap();
    assert_eq!(result, Some((2, 0)));
}

#[test]
fn run_halve_preset_register() {
    let mut cpu = Cpu::new(rom(&["hlf a"]));
    cpu.set_register(RegisterId::A, 7);
    let result = cpu.run_to_completion(1000).unwrap();
    assert_eq!(result, Some((3, 0)));
    assert_eq!(cpu.pc, 1);
}

#[test]
fn halts_right_after_last_instruction() {
    let mut cpu = Cpu::new(rom(&["inc a"]));
    assert_eq!(cpu.step().unwrap(), true);
    assert_eq!(cpu.register_value(RegisterId::A), 1);
    assert_eq!(cpu.pc, 1);
    // pc now equals the program length: the next fetch halts the machine
    // without executing anything further.
    assert_eq!(cpu.step().unwrap(), false);
    assert_eq!(cpu.register_value(RegisterId::A), 1);
    assert_eq!(cpu.pc, 1);
}

#[test]
fn negative_jump_out_of_range_halts() {
    let mut cpu = Cpu::new(rom(&["jmp -5"]));
    let result = cpu.run_to_completion(1000).unwrap();
    assert_eq!(result, Some((0, 0)));
    assert_eq!(cpu.pc, -5);
}

#[test]
fn looping_program_is_cut_off_by_the_cycle_cap() {
    let mut cpu = Cpu::new(rom(&["inc b", "jmp -1"]));
    let result = cpu.run_to_completion(9).unwrap();
    assert_eq!(result, None);
    assert_eq!(cpu.register_value(RegisterId::B), 5);
}

#[test]
fn jump_by_zero_keeps_pc_in_place() {
    let mut cpu = Cpu::new(rom(&["jmp +0"]));
    assert_eq!(cpu.step().unwrap(), true);
    assert_eq!(cpu.pc, 0);
    assert_eq!(cpu.register_value(RegisterId::A), 0);
    assert_eq!(cpu.register_value(RegisterId::B), 0);
    let result = cpu.run_to_completion(25).unwrap();
    assert_eq!(result, None);
}

#[test]
fn jump_moves_pc_by_exactly_the_offset() {
    let mut cpu = Cpu::new(Rom::new(vec![]));
    cpu.jmp(3);
    assert_eq!(cpu.pc, 3);
    cpu.jmp(-7);
    assert_eq!(cpu.pc, -4);
    assert_eq!(cpu.register_value(RegisterId::A), 0);
    assert_eq!(cpu.register_value(RegisterId::B), 0);
}

#[test]
fn jump_if_even_taken_and_not_taken() {
    // a = 0 is even: the jump lands past the first `inc b`.
    let mut cpu = Cpu::new(rom(&["jie a, +2", "inc b", "inc b"]));
    let result = cpu.run_to_completion(1000).unwrap();
    assert_eq!(result, Some((0, 1)));

    // a = 1 is odd: pc moves by exactly 1 and both increments run.
    let mut cpu = Cpu::new(rom(&["jie a, +2", "inc b", "inc b"]));
    cpu.set_register(RegisterId::A, 1);
    let result = cpu.run_to_completion(1000).unwrap();
    assert_eq!(result, Some((1, 2)));
}

#[test]
fn jump_if_one_taken_and_not_taken() {
    // a = 1: the jump is taken.
    let mut cpu = Cpu::new(rom(&["jio a, +2", "inc b", "inc b"]));
    cpu.set_register(RegisterId::A, 1);
    let result = cpu.run_to_completion(1000).unwrap();
    assert_eq!(result, Some((1, 1)));

    // a = 2 is not 1 (even counts for jie, not jio): pc moves by exactly 1.
    let mut cpu = Cpu::new(rom(&["jio a, +2", "inc b", "inc b"]));
    cpu.set_register(RegisterId::A, 2);
    let result = cpu.run_to_completion(1000).unwrap();
    assert_eq!(result, Some((2, 2)));
}

#[test]
fn increment_n_times_from_zero_yields_n() {
    let mut cpu = Cpu::new(Rom::new(vec![]));
    for _ in 0..17 {
        cpu.inc(RegisterId::B);
    }
    assert_eq!(cpu.register_value(RegisterId::B), 17);
}

#[test]
fn decode_failure_is_fatal_and_mutates_nothing() {
    let mut cpu = Cpu::new(rom(&["inc a", "wibble 3"]));
    assert_eq!(cpu.step().unwrap(), true);
    let err = cpu.step().unwrap_err();
    match err {
        VmError::Decode { at, error } => {
            assert_eq!(at, 1);
            assert_eq!(error.line, "wibble 3");
        }
        other => panic!("expected a decode failure, got {:?}", other),
    }
    // Neither the registers nor the pc moved.
    assert_eq!(cpu.register_value(RegisterId::A), 1);
    assert_eq!(cpu.register_value(RegisterId::B), 0);
    assert_eq!(cpu.pc, 1);
    // run_to_completion surfaces the same fatal error.
    let err = cpu.run_to_completion(1000).unwrap_err();
    assert!(matches!(err, VmError::Decode { at: 1, .. }));
}

#[test]
fn increment_overflow_is_an_explicit_error() {
    let mut cpu = Cpu::new(rom(&["inc a"]));
    cpu.set_register(RegisterId::A, u64::MAX);
    let err = cpu.step().unwrap_err();
    match err {
        VmError::Overflow { at, instruction } => {
            assert_eq!(at, 0);
            assert_eq!(instruction, Instruction::Increment(RegisterId::A));
        }
        other => panic!("expected an overflow failure, got {:?}", other),
    }
    assert_eq!(cpu.register_value(RegisterId::A), u64::MAX);
    assert_eq!(cpu.pc, 0);
}

#[test]
fn triple_overflow_is_refused_and_keeps_the_register() {
    let too_big = u64::MAX / 3 + 1;
    let mut cpu = Cpu::new(Rom::new(vec![]));
    cpu.set_register(RegisterId::B, too_big);
    assert!(!cpu.tpl(RegisterId::B));
    assert_eq!(cpu.register_value(RegisterId::B), too_big);
    assert_eq!(cpu.pc, 0);
    // The largest value that still fits is tripled exactly.
    cpu.set_register(RegisterId::B, u64::MAX / 3);
    assert!(cpu.tpl(RegisterId::B));
    assert_eq!(cpu.register_value(RegisterId::B), u64::MAX / 3 * 3);
    assert_eq!(cpu.pc, 1);
}

#[test]
fn rom_get_distinguishes_halt_from_data() {
    let store = rom(&["inc a", "hlf b"]);
    assert_eq!(store.len(), 2);
    assert_eq!(store.get(0), Some("inc a".to_string()));
    assert_eq!(store.get(1), Some("hlf b".to_string()));
    assert_eq!(store.get(2), None);
}

#[test]
fn register_cell_operations() {
    let mut r = turing_lock::cpu::Register::new();
    assert_eq!(r.value(), 0);
    assert!(!r.is_odd());
    assert!(r.increment());
    assert_eq!(r.value(), 1);
    assert!(r.is_odd());
    assert!(r.triple());
    assert_eq!(r.value(), 3);
    r.half();
    assert_eq!(r.value(), 1);
}
