//! Properties proved of the machine's semantics, stated once and for all
//! inputs over the specification functions of [`crate::machine`].

use vstd::prelude::*;

use crate::io::next_pos;
use crate::io::read_result;
use crate::machine::halted;
use crate::machine::is_negative;
use crate::machine::lemma_address_in_range;
use crate::machine::lemma_wrapping_add_mod;
use crate::machine::lemma_wrapping_sub_mod;
use crate::machine::no_earlier_halt;
use crate::machine::op_a;
use crate::machine::op_b;
use crate::machine::op_c;
use crate::machine::runs_to;
use crate::machine::spec_step;
use crate::machine::spec_steps;
use crate::machine::wf_state;
use crate::machine::word_add;
use crate::machine::word_at;
use crate::machine::word_sub;
use crate::machine::State;
use crate::machine::CORE_SIZE;

verus! {

/// One arithmetic instruction, for every pair of words `x`, `y`: with
/// `mem[a] == x` and `mem[b] == y` it stores `(y - x)` modulo 65536 into
/// `mem[b]` unconditionally, and the program counter becomes `c` exactly
/// when that result has its top bit set or is zero, and the plain
/// three-word advance (mod 65536) otherwise.
pub proof fn lemma_arith_step(s: State, x: u16, y: u16)
    requires
        wf_state(s),
        op_a(s) != 0xFFFF,
        op_b(s) != 0xFFFF,
        s.mem[op_a(s) as int] == x,
        s.mem[op_b(s) as int] == y,
    ensures
        spec_step(s).mem == s.mem.update(op_b(s) as int, word_sub(y, x)),
        word_sub(y, x) as int == ((y as int) - (x as int)) % (CORE_SIZE as int),
        is_negative(word_sub(y, x)) || word_sub(y, x) == 0 ==> spec_step(s).pc == op_c(s),
        !(is_negative(word_sub(y, x)) || word_sub(y, x) == 0) ==> spec_step(s).pc as int == ((
        s.pc as int) + 3) % (CORE_SIZE as int),
        spec_step(s).out == s.out,
        spec_step(s).pos == s.pos,
{
    lemma_address_in_range(op_a(s));
    lemma_address_in_range(op_b(s));
    lemma_wrapping_sub_mod(y, x);
    lemma_wrapping_add_mod(s.pc, 3);
}

/// Fetch and advance wrap around the top of memory: with the program
/// counter at 65534, the three operands come from addresses 65534, 65535
/// and 0, and the three-word advance lands on address 1.
pub proof fn lemma_fetch_wraparound(s: State)
    requires
        wf_state(s),
        s.pc == 0xFFFE,
    ensures
        op_a(s) == s.mem[0xFFFE],
        op_b(s) == s.mem[0xFFFF],
        op_c(s) == s.mem[0],
        word_add(s.pc, 3) == 1,
{
    lemma_address_in_range(0xFFFE);
    lemma_address_in_range(0xFFFF);
    lemma_wrapping_add_mod(0xFFFE, 2);
    lemma_wrapping_add_mod(0xFFFE, 3);
    assert((0xFFFEu16).wrapping_add(2) == 0);
    assert((0xFFFEu16).wrapping_add(3) == 1);
}

/// Halt detection is exact: an execution from an already halted state
/// runs zero instructions — the final state is the initial one.
pub proof fn lemma_halted_runs_zero(init: State, fin: State)
    requires
        halted(init),
        runs_to(init, fin),
    ensures
        fin == init,
{
    let n = choose|n: nat|
        {
            &&& fin == #[trigger] spec_steps(init, n)
            &&& halted(fin)
            &&& no_earlier_halt(init, n)
        };
    assert(spec_steps(init, 0) == init);
    if n != 0 {
        assert(!halted(spec_steps(init, 0)));
        assert(false);
    }
}

/// Halt detection is exact, the other way round: a complete execution
/// stops at the first halted state and at no other, so from one initial
/// state it can reach only one final state.
pub proof fn lemma_runs_to_unique(init: State, fin1: State, fin2: State)
    requires
        runs_to(init, fin1),
        runs_to(init, fin2),
    ensures
        fin1 == fin2,
{
    let n1 = choose|n: nat|
        {
            &&& fin1 == #[trigger] spec_steps(init, n)
            &&& halted(fin1)
            &&& no_earlier_halt(init, n)
        };
    let n2 = choose|n: nat|
        {
            &&& fin2 == #[trigger] spec_steps(init, n)
            &&& halted(fin2)
            &&& no_earlier_halt(init, n)
        };
    if n1 < n2 {
        assert(!halted(spec_steps(init, n1)));
        assert(false);
    }
    if n2 < n1 {
        assert(!halted(spec_steps(init, n2)));
        assert(false);
    }
}

/// Input dispatch takes precedence: whenever the first operand is the
/// all-ones sentinel — even if the second is too — the instruction reads
/// from the source and emits nothing on the sink.
pub proof fn lemma_input_precedence(s: State)
    requires
        wf_state(s),
        op_a(s) == 0xFFFF,
    ensures
        spec_step(s).mem == s.mem.update(op_b(s) as int, read_result(s.inp, s.pos)),
        spec_step(s).pos == next_pos(s.inp, s.pos),
        spec_step(s).out == s.out,
        spec_step(s).pc == word_add(s.pc, 3),
{
}

/// An exhausted source yields the sentinel: an input instruction read
/// past the end of the input stores the all-ones word into the
/// destination cell, and leaves the read cursor where it was.
pub proof fn lemma_end_of_input_sentinel(s: State)
    requires
        wf_state(s),
        op_a(s) == 0xFFFF,
        s.pos >= s.inp.len(),
    ensures
        spec_step(s).mem[op_b(s) as int] == 0xFFFF,
        spec_step(s).pos == s.pos,
{
}

/// Output transmits only the low 8 bits of the addressed word; memory and
/// the read cursor are untouched.
pub proof fn lemma_output_low_byte(s: State)
    requires
        wf_state(s),
        op_a(s) != 0xFFFF,
        op_b(s) == 0xFFFF,
    ensures
        spec_step(s).out == s.out.push((word_at(s.mem, op_a(s) as int) & 0xFF) as u8),
        spec_step(s).mem == s.mem,
        spec_step(s).pos == s.pos,
{
}

} // verus!
