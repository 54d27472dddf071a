use bliss_vm::instruction::Opcode;
use bliss_vm::vm::VM;

#[test]
fn test_create_vm() {
    let test_vm = VM::new();
    assert_eq!(test_vm.registers[0], 0)
}

#[test]
fn test_load_opcode() {
    let mut test_vm = VM::new();
    test_vm.program = vec![0, 0, 1, 244];
    test_vm.run_once();
    assert_eq!(test_vm.registers[0], 500);
}

#[test]
fn test_jmp_opcode() {
    let mut test_vm = VM::new();
    test_vm.registers[0] = 1;
    test_vm.program = vec![7, 0, 0, 0];
    test_vm.run_once();
    assert_eq!(test_vm.pc, 1);
}

#[test]
fn test_opcode_igl() {
    let mut test_vm = VM::new();
    let test_bytes = vec![200, 0, 0, 0];
    test_vm.program = test_bytes;
    test_vm.run_once();
    assert_eq!(test_vm.pc, 1);
}

#[test]
fn test_fresh_vm_state() {
    let test_vm = VM::new();
    assert_eq!(test_vm.registers.len(), 32);
    assert!(test_vm.registers.iter().all(|&r| r == 0));
    assert_eq!(test_vm.pc, 0);
    assert_eq!(test_vm.program.len(), 0);
    assert_eq!(test_vm.remainder, 0);
}

#[test]
fn test_empty_program_stops() {
    let mut test_vm = VM::new();
    let continuing = test_vm.execute_instruction();
    assert!(!continuing);
    assert_eq!(test_vm.pc, 0);
    assert!(test_vm.registers.iter().all(|&r| r == 0));
}

#[test]
fn test_decode_opcode() {
    let mut test_vm = VM::new();
    test_vm.program = vec![5, 0];
    let opcode = test_vm.decode_opcode();
    assert_eq!(opcode, Opcode::HLT);
    assert_eq!(test_vm.pc, 1);
}

#[test]
fn test_decode_unmapped_byte() {
    let mut test_vm = VM::new();
    test_vm.program = vec![99];
    assert_eq!(test_vm.decode_opcode(), Opcode::IGL);
}

#[test]
fn test_next_8_bits() {
    let mut test_vm = VM::new();
    test_vm.program = vec![17, 42];
    assert_eq!(test_vm.next_8_bits(), 17);
    assert_eq!(test_vm.next_8_bits(), 42);
    assert_eq!(test_vm.pc, 2);
}

#[test]
fn test_next_16_bits_big_endian() {
    let mut test_vm = VM::new();
    test_vm.program = vec![1, 244];
    assert_eq!(test_vm.next_16_bits(), 500);
    assert_eq!(test_vm.pc, 2);
}

#[test]
fn test_load_advances_counter_by_four() {
    let mut test_vm = VM::new();
    test_vm.program = vec![0, 3, 1, 244];
    test_vm.run_once();
    assert_eq!(test_vm.registers[3], 500);
    assert_eq!(test_vm.pc, 4);
}

#[test]
fn test_jmp_sets_counter_to_register_value() {
    let mut test_vm = VM::new();
    test_vm.registers[2] = 1;
    test_vm.program = vec![6, 2, 5, 0];
    test_vm.run_once();
    assert_eq!(test_vm.pc, 1);
}

#[test]
fn test_add_opcode() {
    let mut test_vm = VM::new();
    test_vm.registers[0] = 500;
    test_vm.registers[1] = 12;
    test_vm.program = vec![1, 0, 1, 2];
    test_vm.run_once();
    assert_eq!(test_vm.registers[2], 512);
}

#[test]
fn test_add_wraps_on_overflow() {
    let mut test_vm = VM::new();
    test_vm.registers[0] = i32::MAX;
    test_vm.registers[1] = i32::MAX;
    test_vm.program = vec![1, 0, 1, 2];
    test_vm.run_once();
    assert_eq!(test_vm.registers[2], -2);
}

#[test]
fn test_sub_opcode() {
    let mut test_vm = VM::new();
    test_vm.registers[0] = 500;
    test_vm.registers[1] = 12;
    test_vm.program = vec![2, 0, 1, 2];
    test_vm.run_once();
    assert_eq!(test_vm.registers[2], 488);
}

#[test]
fn test_sub_wraps_on_underflow() {
    let mut test_vm = VM::new();
    test_vm.registers[0] = i32::MIN;
    test_vm.registers[1] = 1;
    test_vm.program = vec![2, 0, 1, 2];
    test_vm.run_once();
    assert_eq!(test_vm.registers[2], i32::MAX);
}

#[test]
fn test_mul_opcode() {
    let mut test_vm = VM::new();
    test_vm.registers[0] = 500;
    test_vm.registers[1] = 12;
    test_vm.program = vec![3, 0, 1, 2];
    test_vm.run_once();
    assert_eq!(test_vm.registers[2], 6000);
}

#[test]
fn test_mul_wraps_on_overflow() {
    let mut test_vm = VM::new();
    test_vm.registers[0] = 65536;
    test_vm.registers[1] = 65536;
    test_vm.program = vec![3, 0, 1, 2];
    test_vm.run_once();
    assert_eq!(test_vm.registers[2], 0);
}

#[test]
fn test_div_opcode() {
    let mut test_vm = VM::new();
    test_vm.registers[0] = 7;
    test_vm.registers[1] = 2;
    test_vm.program = vec![4, 0, 1, 2];
    test_vm.run_once();
    assert_eq!(test_vm.registers[2], 3);
    assert_eq!(test_vm.remainder, 1);
}

#[test]
fn test_div_truncates_toward_zero() {
    let mut test_vm = VM::new();
    test_vm.registers[0] = -7;
    test_vm.registers[1] = 2;
    test_vm.program = vec![4, 0, 1, 2];
    test_vm.run_once();
    assert_eq!(test_vm.registers[2], -3);
    // the remainder register is unsigned: -1 is stored as its two's-complement bits
    assert_eq!(test_vm.remainder, u32::MAX);
}

#[test]
fn test_hlt_first_byte_halts_immediately() {
    let mut test_vm = VM::new();
    test_vm.registers[0] = 42;
    test_vm.program = vec![5, 0, 0, 0];
    let continuing = test_vm.execute_instruction();
    assert!(!continuing);
    assert_eq!(test_vm.pc, 1);
    assert_eq!(test_vm.registers[0], 42);
}

#[test]
fn test_unmapped_byte_preserves_registers() {
    let mut test_vm = VM::new();
    test_vm.registers[0] = 42;
    test_vm.program = vec![255];
    let continuing = test_vm.execute_instruction();
    assert!(!continuing);
    assert_eq!(test_vm.pc, 1);
    assert_eq!(test_vm.registers[0], 42);
    assert_eq!(test_vm.remainder, 0);
}

#[test]
fn test_run_once_past_end_changes_nothing() {
    let mut test_vm = VM::new();
    test_vm.registers[0] = 42;
    test_vm.program = vec![5];
    test_vm.run_once();
    assert_eq!(test_vm.pc, 1);
    // the counter now sits at the end of the program: further stepping is a no-op
    test_vm.run_once();
    test_vm.run_once();
    assert_eq!(test_vm.pc, 1);
    assert_eq!(test_vm.registers[0], 42);
    assert_eq!(test_vm.remainder, 0);
}

#[test]
fn test_load_then_halt_runs_to_completion() {
    let mut test_vm = VM::new();
    test_vm.program = vec![0, 0, 1, 244, 5];
    let mut steps: u32 = 0;
    loop {
        steps += 1;
        if !test_vm.execute_instruction() {
            break;
        }
    }
    assert_eq!(steps, 2);
    assert_eq!(test_vm.registers[0], 500);
    assert_eq!(test_vm.pc, 5);

    let mut second_vm = VM::new();
    second_vm.program = vec![0, 0, 1, 244, 5];
    second_vm.run();
    assert_eq!(second_vm.registers[0], 500);
    assert_eq!(second_vm.pc, 5);
}
