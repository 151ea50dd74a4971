//! The virtual machine: a program counter, 65536 words of memory, and the
//! single subtract-and-branch instruction with its I/O-sentinel dispatch.
//!
//! The whole observable behaviour of one instruction is written down once,
//! as the specification function [`spec_step`] over a mathematical
//! [`State`]; the executable [`VM::step`] is proved to realise it exactly,
//! and [`VM::run`] is proved to iterate it until, and no further than, the
//! first halted state.

use vstd::prelude::*;

use vstd::arithmetic::div_mod::lemma_mod_add_multiples_vanish;
use vstd::arithmetic::div_mod::lemma_small_mod;

use crate::io::fgetc;
use crate::io::fputc;
use crate::io::next_pos;
use crate::io::read_result;
use crate::io::InputSource;
use crate::io::OutputSink;

verus! {

/// Number of addressable memory cells; addresses are 16-bit words, so the
/// address space and the data space coincide.
pub const CORE_SIZE: usize = 0x10000;

/// A mathematical snapshot of everything one instruction can observe or
/// change: the registers and memory of the machine together with the
/// position in the input stream and the output emitted so far.
pub ghost struct State {
    /// Program counter.
    pub pc: u16,
    /// The 65536 memory words.
    pub mem: Seq<u16>,
    /// The whole input stream.
    pub inp: Seq<u8>,
    /// How many input bytes have been consumed.
    pub pos: nat,
    /// The bytes emitted so far, oldest first.
    pub out: Seq<u8>,
}

/// A state makes sense when its memory has exactly [`CORE_SIZE`] cells.
pub open spec fn wf_state(s: State) -> bool {
    s.mem.len() == CORE_SIZE
}

/// The machine is halted exactly when the program counter's most
/// significant bit is set.
pub open spec fn halted(s: State) -> bool {
    s.pc & 0x8000 != 0
}

/// The word stored at `addr` taken modulo the memory size, so that
/// addresses computed past the top of memory wrap around to the bottom.
pub open spec fn word_at(mem: Seq<u16>, addr: int) -> u16 {
    mem[addr % (CORE_SIZE as int)]
}

/// 16-bit modular addition of a small offset to an address.
pub open spec fn word_add(x: u16, k: int) -> u16 {
    (((x as int) + k) % (CORE_SIZE as int)) as u16
}

/// 16-bit modular subtraction `y - x`, wrapping silently.
pub open spec fn word_sub(y: u16, x: u16) -> u16 {
    (((y as int) - (x as int)) % (CORE_SIZE as int)) as u16
}

/// The low 8 bits of a word: all that output ever transmits.
pub open spec fn low_byte(w: u16) -> u8 {
    (w & 0xFF) as u8
}

/// The sign test of the branch: only the most significant bit of the
/// 16-bit result is examined.
pub open spec fn is_negative(w: u16) -> bool {
    w & 0x8000 == 0x8000
}

/// First operand of the instruction at the program counter.
pub open spec fn op_a(s: State) -> u16 {
    word_at(s.mem, s.pc as int)
}

/// Second operand, fetched one word past the program counter, wrapping.
pub open spec fn op_b(s: State) -> u16 {
    word_at(s.mem, s.pc as int + 1)
}

/// Third operand, fetched two words past the program counter, wrapping.
pub open spec fn op_c(s: State) -> u16 {
    word_at(s.mem, s.pc as int + 2)
}

/// Executing exactly one instruction: fetch the three operands at the
/// program counter, advance it by three (mod 65536), then dispatch on the
/// all-ones sentinel — `a` first, so a triple with both `a` and `b` all
/// ones is an input instruction; otherwise subtract, store, and branch to
/// `c` when the result has its top bit set or is zero.
pub open spec fn spec_step(s: State) -> State {
    let a = op_a(s);
    let b = op_b(s);
    let c = op_c(s);
    let pc1 = word_add(s.pc, 3);
    if a == 0xFFFF {
        State {
            pc: pc1,
            mem: s.mem.update(b as int, read_result(s.inp, s.pos)),
            pos: next_pos(s.inp, s.pos),
            ..s
        }
    } else if b == 0xFFFF {
        State { pc: pc1, out: s.out.push(low_byte(word_at(s.mem, a as int))), ..s }
    } else {
        let r = word_sub(word_at(s.mem, b as int), word_at(s.mem, a as int));
        let pc2 = if is_negative(r) || r == 0 {
            c
        } else {
            pc1
        };
        State { pc: pc2, mem: s.mem.update(b as int, r), ..s }
    }
}

/// The state after `n` instructions from `s`.
pub open spec fn spec_steps(s: State, n: nat) -> State
    decreases n,
{
    if n == 0 {
        s
    } else {
        spec_step(spec_steps(s, (n - 1) as nat))
    }
}

/// None of the first `n` states reached from `init` is halted.
pub open spec fn no_earlier_halt(init: State, n: nat) -> bool {
    forall|k: nat| k < n ==> !halted(#[trigger] spec_steps(init, k))
}

/// A complete execution: `fin` is reached from `init` by some number of
/// instructions, is halted, and no state before it was — the loop stops
/// exactly when the program counter's top bit first becomes 1.
pub open spec fn runs_to(init: State, fin: State) -> bool {
    exists|n: nat|
        {
            &&& fin == #[trigger] spec_steps(init, n)
            &&& halted(fin)
            &&& no_earlier_halt(init, n)
        }
}

/// An execution cut short: `fin` is exactly `fuel` instructions from
/// `init` and no state up to and including it is halted.
pub open spec fn out_of_fuel(init: State, fin: State, fuel: nat) -> bool {
    &&& fin == spec_steps(init, fuel)
    &&& !halted(fin)
    &&& no_earlier_halt(init, fuel)
}

/// Addresses are 16-bit values, so reducing one modulo the memory size
/// changes nothing.
pub(crate) proof fn lemma_address_in_range(x: u16)
    ensures
        (x as int) % (CORE_SIZE as int) == x as int,
{
    lemma_small_mod(x as nat, CORE_SIZE as nat);
}

/// The machine's 16-bit wrapping addition agrees with addition modulo the
/// memory size.
pub(crate) proof fn lemma_wrapping_add_mod(x: u16, k: u16)
    ensures
        x.wrapping_add(k) == word_add(x, k as int),
        x.wrapping_add(k) as int == ((x as int) + (k as int)) % (CORE_SIZE as int),
{
    let m: int = CORE_SIZE as int;
    let s: int = (x as int) + (k as int);
    if s < m {
        lemma_small_mod(s as nat, m as nat);
    } else {
        lemma_mod_add_multiples_vanish(s - m, m);
        lemma_small_mod((s - m) as nat, m as nat);
    }
}

/// The machine's 16-bit wrapping subtraction agrees with subtraction
/// modulo the memory size.
pub(crate) proof fn lemma_wrapping_sub_mod(y: u16, x: u16)
    ensures
        y.wrapping_sub(x) == word_sub(y, x),
        y.wrapping_sub(x) as int == ((y as int) - (x as int)) % (CORE_SIZE as int),
{
    let m: int = CORE_SIZE as int;
    let d: int = (y as int) - (x as int);
    if d >= 0 {
        lemma_small_mod(d as nat, m as nat);
    } else {
        lemma_mod_add_multiples_vanish(d, m);
        lemma_small_mod((d + m) as nat, m as nat);
    }
}

/// The virtual machine: minimal state, a program counter and its memory.
pub struct VM {
    /// Program counter; its most significant bit doubles as the halt flag.
    pub pc: u16,
    /// The machine's memory, always exactly [`CORE_SIZE`] words.
    pub core: Vec<u16>,
}

impl VM {
    /// The memory holds exactly [`CORE_SIZE`] cells, so that every 16-bit
    /// address is in bounds.  Constructors establish this and every method
    /// preserves it.
    pub open spec fn wf(&self) -> bool {
        self.core@.len() == CORE_SIZE
    }

    /// The mathematical state of this machine wired to the given source
    /// and sink.
    pub open spec fn state(&self, input: InputSource, output: OutputSink) -> State {
        State {
            pc: self.pc,
            mem: self.core@,
            inp: input.data@,
            pos: input.pos as nat,
            out: output.data@,
        }
    }

    /// Constructs a machine with `image` copied into the lowest addresses,
    /// every remaining cell zero, and the program counter at 0.
    pub fn new(image: &[u16]) -> (r: VM)
        requires
            image@.len() <= CORE_SIZE,
        ensures
            r.wf(),
            r.pc == 0,
            forall|i: int| 0 <= i < image@.len() ==> r.core@[i] == image@[i],
            forall|i: int| image@.len() <= i < CORE_SIZE ==> r.core@[i] == 0,
    {
        let mut core: Vec<u16> = Vec::new();
        let mut i: usize = 0;
        while i < CORE_SIZE
            invariant
                i <= CORE_SIZE,
                core@.len() == i,
                image@.len() <= CORE_SIZE,
                forall|j: int| 0 <= j < i && j < image@.len() ==> core@[j] == image@[j],
                forall|j: int| image@.len() <= j < i ==> core@[j] == 0,
            decreases CORE_SIZE - i,
        {
            if i < image.len() {
                core.push(image[i]);
            } else {
                core.push(0u16);
            }
            i = i + 1;
        }
        VM { pc: 0, core }
    }

    /// Executes exactly one instruction, whatever the program counter
    /// holds — the halt test belongs to [`VM::run`], not to the
    /// instruction itself.  The new machine, source and sink together are
    /// exactly [`spec_step`] of the old ones.
    pub fn step(&mut self, input: &mut InputSource, output: &mut OutputSink)
        requires
            old(self).wf(),
        ensures
            final(self).wf(),
            final(self).state(*final(input), *final(output)) == spec_step(
                old(self).state(*old(input), *old(output)),
            ),
    {
        let pc = self.pc;
        let i1 = pc.wrapping_add(1);
        let i2 = pc.wrapping_add(2);
        proof {
            lemma_wrapping_add_mod(pc, 1);
            lemma_wrapping_add_mod(pc, 2);
            lemma_wrapping_add_mod(pc, 3);
            lemma_address_in_range(pc);
        }
        let a = self.core[pc as usize];
        let b = self.core[i1 as usize];
        let c = self.core[i2 as usize];
        proof {
            lemma_address_in_range(a);
            lemma_address_in_range(b);
        }
        self.pc = pc.wrapping_add(3);

        if a == 0xFFFF {
            let v = fgetc(input);
            self.core[b as usize] = v;
        } else if b == 0xFFFF {
            let w = self.core[a as usize];
            assert(w & 0xFF < 0x100) by (bit_vector);
            fputc(output, (w & 0xFF) as u8);
        } else {
            let mb = self.core[b as usize];
            let ma = self.core[a as usize];
            let r = mb.wrapping_sub(ma);
            proof {
                lemma_wrapping_sub_mod(mb, ma);
            }
            if r & 0x8000 == 0x8000 || r == 0 {
                self.pc = c;
            }
            self.core[b as usize] = r;
        }
    }

    /// Runs the machine until the program counter's most significant bit
    /// becomes 1, driving the source and sink as instructions demand, for
    /// at most `fuel` instructions.  `Some(0)` — the single success
    /// status — means the machine halted: the final machine, source and
    /// sink are the first halted iterate of [`spec_step`] from the
    /// initial ones, and no other.  `None` means `fuel` instructions were
    /// executed without reaching a halted state; calling `run` again
    /// continues exactly where it stopped, so a caller that loops on
    /// `None` blocks for as long as the program does.
    ///
    /// The bound is the one concession to the verifier: a machine of this
    /// kind can loop forever, and a loop with no termination measure
    /// cannot be written here.
    pub fn run(
        &mut self,
        input: &mut InputSource,
        output: &mut OutputSink,
        fuel: u64,
    ) -> (r: Option<i32>)
        requires
            old(self).wf(),
        ensures
            final(self).wf(),
            ({
                let init = old(self).state(*old(input), *old(output));
                let fin = final(self).state(*final(input), *final(output));
                match r {
                    Some(status) => status == 0 && runs_to(init, fin),
                    None => out_of_fuel(init, fin, fuel as nat),
                }
            }),
    {
        let ghost init: State = self.state(*input, *output);
        let mut used: u64 = 0;
        while used < fuel && self.pc & 0x8000 == 0
            invariant
                self.wf(),
                used <= fuel,
                self.state(*input, *output) == spec_steps(init, used as nat),
                no_earlier_halt(init, used as nat),
            decreases fuel - used,
        {
            proof {
                assert(!halted(spec_steps(init, used as nat)));
            }
            self.step(input, output);
            proof {
                assert(spec_steps(init, used as nat + 1) == spec_step(
                    spec_steps(init, used as nat),
                ));
            }
            used = used + 1;
        }
        if self.pc & 0x8000 != 0 {
            proof {
                assert(halted(spec_steps(init, used as nat)));
            }
            Some(0)
        } else {
            None
        }
    }

    /// Sets the program counter back to 0.  Memory is untouched: the
    /// program, and any data it has mutated, persist.
    pub fn reset(&mut self)
        ensures
            final(self).pc == 0,
            final(self).core@ == old(self).core@,
    {
        self.pc = 0;
    }
}

} // verus!
