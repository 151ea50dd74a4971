use subleq::fgetc;
use subleq::fputc;
use subleq::InputSource;
use subleq::OutputSink;
use subleq::VM;

#[test]
fn run() {
    let mut vm = VM::new(&[]);
    let _ = &mut vm;
}

#[test]
fn new_copies_image_and_zero_fills() {
    let vm = VM::new(&[7, 8]);
    assert_eq!(vm.pc, 0);
    assert_eq!(vm.core.len(), 0x10000);
    assert_eq!(vm.core[0], 7);
    assert_eq!(vm.core[1], 8);
    assert_eq!(vm.core[2], 0);
    assert_eq!(vm.core[0xFFFF], 0);
}

#[test]
fn reset_clears_pc_and_keeps_memory() {
    let mut vm = VM::new(&[1, 2, 3]);
    vm.pc = 1234;
    vm.core[5] = 99;
    vm.reset();
    assert_eq!(vm.pc, 0);
    assert_eq!(vm.core[0], 1);
    assert_eq!(vm.core[5], 99);
}

#[test]
fn arith_step_no_branch() {
    // a = 4, b = 5, c = 9; mem[4] = 1, mem[5] = 5: r = 5 - 1 = 4,
    // positive and non-zero, so pc advances plainly to 3.
    let mut vm = VM::new(&[4, 5, 9, 0, 1, 5]);
    let mut input = InputSource::new(Vec::new());
    let mut output = OutputSink::new();
    vm.step(&mut input, &mut output);
    assert_eq!(vm.core[5], 4);
    assert_eq!(vm.pc, 3);
    assert!(output.data.is_empty());
}

#[test]
fn arith_step_branches_on_negative() {
    // mem[4] = 5, mem[5] = 3: r = 3 - 5 wraps to 0xFFFE, top bit set,
    // so the result is stored and pc becomes c = 9.
    let mut vm = VM::new(&[4, 5, 9, 0, 5, 3]);
    let mut input = InputSource::new(Vec::new());
    let mut output = OutputSink::new();
    vm.step(&mut input, &mut output);
    assert_eq!(vm.core[5], 0xFFFE);
    assert_eq!(vm.pc, 9);
}

#[test]
fn arith_step_branches_on_zero() {
    // mem[4] = 5, mem[5] = 5: r = 0, so pc becomes c = 9.
    let mut vm = VM::new(&[4, 5, 9, 0, 5, 5]);
    let mut input = InputSource::new(Vec::new());
    let mut output = OutputSink::new();
    vm.step(&mut input, &mut output);
    assert_eq!(vm.core[5], 0);
    assert_eq!(vm.pc, 9);
}

#[test]
fn fetch_wraps_at_top_of_memory() {
    // The triple sits at 65534: a at 65534, b at 65535, and c wraps
    // around to address 0.  The post-fetch advance wraps to 1.
    let mut vm = VM::new(&[9, 0, 0, 0, 1, 5]);
    vm.core[65534] = 4;
    vm.core[65535] = 5;
    vm.pc = 65534;
    let mut input = InputSource::new(Vec::new());
    let mut output = OutputSink::new();
    vm.step(&mut input, &mut output);
    // r = mem[5] - mem[4] = 5 - 1 = 4: no branch, pc = (65534 + 3) mod 65536.
    assert_eq!(vm.core[5], 4);
    assert_eq!(vm.pc, 1);
}

#[test]
fn branch_target_fetched_across_wrap() {
    // Same triple at 65534, but r = 3 - 5 is negative: pc becomes the
    // third operand, which was fetched from address 0.
    let mut vm = VM::new(&[9, 0, 0, 0, 5, 3]);
    vm.core[65534] = 4;
    vm.core[65535] = 5;
    vm.pc = 65534;
    let mut input = InputSource::new(Vec::new());
    let mut output = OutputSink::new();
    vm.step(&mut input, &mut output);
    assert_eq!(vm.core[5], 0xFFFE);
    assert_eq!(vm.pc, 9);
}

#[test]
fn halted_machine_runs_zero_instructions() {
    let mut vm = VM::new(&[2, 2, 3]);
    vm.pc = 0x8000;
    let mut input = InputSource::new(vec![1, 2, 3]);
    let mut output = OutputSink::new();
    let status = vm.run(&mut input, &mut output, 1000);
    assert_eq!(status, Some(0));
    assert_eq!(vm.pc, 0x8000);
    assert_eq!(vm.core[0], 2);
    assert_eq!(vm.core[2], 3);
    assert_eq!(input.pos, 0);
    assert!(output.data.is_empty());
}

#[test]
fn input_takes_precedence_over_output() {
    // Both a and b are the all-ones sentinel: the triple must read a
    // byte into mem[0xFFFF], not write one.
    let mut vm = VM::new(&[0xFFFF, 0xFFFF, 0]);
    let mut input = InputSource::new(vec![0x42]);
    let mut output = OutputSink::new();
    vm.step(&mut input, &mut output);
    assert_eq!(vm.core[0xFFFF], 0x42);
    assert!(output.data.is_empty());
    assert_eq!(input.pos, 1);
    assert_eq!(vm.pc, 3);
}

#[test]
fn exhausted_input_stores_sentinel() {
    let mut vm = VM::new(&[0xFFFF, 10, 0]);
    let mut input = InputSource::new(Vec::new());
    let mut output = OutputSink::new();
    vm.step(&mut input, &mut output);
    assert_eq!(vm.core[10], 0xFFFF);
    assert_eq!(input.pos, 0);
    assert_eq!(vm.pc, 3);
}

#[test]
fn output_emits_only_low_byte() {
    let mut vm = VM::new(&[3, 0xFFFF, 0, 0x1F41]);
    let mut input = InputSource::new(Vec::new());
    let mut output = OutputSink::new();
    vm.step(&mut input, &mut output);
    assert_eq!(output.data, vec![0x41]);
    assert_eq!(vm.core[3], 0x1F41);
    assert_eq!(vm.pc, 3);
}

#[test]
fn subtract_self_branches_then_halts() {
    // mem[2] -= mem[2] gives zero, so pc becomes the third word; with
    // its top bit set the machine is halted after exactly one
    // instruction: fuel 0 is too little, fuel 1 suffices.
    let mut vm = VM::new(&[2, 2, 0x8003]);
    let mut input = InputSource::new(Vec::new());
    let mut output = OutputSink::new();
    assert_eq!(vm.run(&mut input, &mut output, 0), None);
    let status = vm.run(&mut input, &mut output, 1);
    assert_eq!(status, Some(0));
    assert_eq!(vm.core[2], 0);
    assert_eq!(vm.pc, 0x8003);
    assert!(output.data.is_empty());
}

#[test]
fn subtract_self_branch_to_low_address_continues() {
    // The same program with branch target 3: after one instruction the
    // machine is at pc = 3, not halted.
    let mut vm = VM::new(&[2, 2, 3]);
    let mut input = InputSource::new(Vec::new());
    let mut output = OutputSink::new();
    vm.step(&mut input, &mut output);
    assert_eq!(vm.core[2], 0);
    assert_eq!(vm.pc, 3);
}

#[test]
fn non_halting_program_exhausts_fuel() {
    // mem[0] -= mem[0] is zero and branches back to 0, forever.
    let mut vm = VM::new(&[0, 0, 0]);
    let mut input = InputSource::new(Vec::new());
    let mut output = OutputSink::new();
    let status = vm.run(&mut input, &mut output, 100);
    assert_eq!(status, None);
    assert_eq!(vm.pc, 0);
}

#[test]
fn echo_one_byte_end_to_end() {
    // Read a byte into cell 100, write it back out, then subtract a
    // cell from itself and branch into the upper half to halt.
    let image = [0xFFFF, 100, 0, 100, 0xFFFF, 0, 6, 6, 0x8000];
    let mut vm = VM::new(&image);
    let mut input = InputSource::new(vec![0x41]);
    let mut output = OutputSink::new();
    let status = vm.run(&mut input, &mut output, 10);
    assert_eq!(status, Some(0));
    assert_eq!(output.data, vec![0x41]);
    assert_eq!(vm.pc, 0x8000);
    assert_eq!(input.pos, 1);
}

#[test]
fn fgetc_reads_then_yields_sentinel() {
    let mut input = InputSource::new(vec![7, 255]);
    assert_eq!(fgetc(&mut input), 7);
    assert_eq!(fgetc(&mut input), 255);
    assert_eq!(fgetc(&mut input), 0xFFFF);
    assert_eq!(fgetc(&mut input), 0xFFFF);
    assert_eq!(input.pos, 2);
}

#[test]
fn fputc_appends_and_returns_byte() {
    let mut output = OutputSink::new();
    assert_eq!(fputc(&mut output, 0x41), 0x41);
    assert_eq!(fputc(&mut output, 0), 0);
    assert_eq!(output.data, vec![0x41, 0]);
}
