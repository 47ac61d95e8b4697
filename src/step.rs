use vstd::prelude::*;
use crate::decode::{decode_opcode, decode_spec, Instruction};
use crate::execute::{can_execute, exec_ok, exec_spec, execute_instruction, first_key, set_reg};
use crate::machine::{fetch_instruction, word_at, Chip8, Machine, MEMORY_SIZE};

verus! {

/// Number of instructions run per display frame.
pub const INSTRUCTIONS_PER_FRAME: usize = 11;

/// Why the machine cannot go on.
#[derive(PartialEq, Eq, Debug, Clone, Copy, Structural)]
pub enum Fault {
    /// The program counter leaves no room for a whole instruction word.
    PcOutOfRange { pc: u16 },
    /// The word at the program counter is not an opcode.
    UnknownOpcode { word: u16 },
    /// The instruction reaches outside the machine (a register, memory,
    /// stack or key that does not exist, or a 16-bit register overflow).
    BadOperands { instruction: Instruction },
}

/// `s` with its program counter moved past one instruction word.
pub open spec fn fetched(s: Machine) -> Machine {
    Machine { pc: (s.pc + 2) as u16, ..s }
}

/// The word at the program counter of `s`.
pub open spec fn current_word(s: Machine) -> u16 {
    word_at(s.memory, s.pc as int)
}

/// Why `s` cannot take a step, or `None` where it can.
pub open spec fn step_fault(s: Machine) -> Option<Fault> {
    if s.pc + 1 >= MEMORY_SIZE {
        Some(Fault::PcOutOfRange { pc: s.pc })
    } else {
        match decode_spec(current_word(s)) {
            None => Some(Fault::UnknownOpcode { word: current_word(s) }),
            Some(ins) => if exec_ok(ins, fetched(s)) {
                None
            } else {
                Some(Fault::BadOperands { instruction: ins })
            },
        }
    }
}

/// Whether one fetch-decode-execute step leads from `s` to `t`, for some
/// random byte.
#[verifier::opaque]
pub open spec fn steps_to(s: Machine, t: Machine) -> bool {
    &&& step_fault(s) is None
    &&& exists|rnd: u8| t == exec_spec(decode_spec(current_word(s))->Some_0, fetched(s), rnd)
}

/// Whether each state of `trace` steps to the next one.
pub open spec fn is_run(trace: Seq<Machine>) -> bool {
    forall|k: int| 0 <= k < trace.len() - 1 ==> #[trigger] steps_to(trace[k], trace[k + 1])
}

/// A step at a wait-for-key instruction: while no key is down it leaves the
/// machine exactly as it was (the program counter goes back over the word
/// just fetched); once a key is down it stores the lowest pressed key in the
/// register and moves on to the next instruction. Such a step can be taken
/// wherever the word lies in memory and names a register.
pub proof fn lemma_wait_for_key_step(s: Machine, t: Machine, reg: u8)
    requires
        s.wf(),
        s.pc + 1 < MEMORY_SIZE,
        reg < 16,
        decode_spec(current_word(s)) == Some(Instruction::LdKey { reg }),
    ensures
        step_fault(s) is None,
        steps_to(s, t) && first_key(s.keys) is None ==> t == s,
        steps_to(s, t) && first_key(s.keys) is Some ==> t == set_reg(
            fetched(s),
            reg as int,
            first_key(s.keys)->Some_0 as u8,
        ),
{
    reveal(steps_to);
    if steps_to(s, t) && first_key(s.keys) is None {
        assert(t =~= s);
    }
}

/// While no key is down, a run that starts at a wait-for-key instruction
/// stays in its first state however many steps it takes.
pub proof fn lemma_wait_for_key_run(trace: Seq<Machine>, reg: u8)
    requires
        is_run(trace),
        trace.len() >= 1,
        trace[0].wf(),
        trace[0].pc + 1 < MEMORY_SIZE,
        reg < 16,
        decode_spec(current_word(trace[0])) == Some(Instruction::LdKey { reg }),
        first_key(trace[0].keys) is None,
    ensures
        forall|k: int| 0 <= k < trace.len() ==> #[trigger] trace[k] == trace[0],
{
    assert forall|k: int| 0 <= k < trace.len() implies #[trigger] trace[k] == trace[0] by {
        lemma_run_stays(trace, reg, k);
    }
}

proof fn lemma_run_stays(trace: Seq<Machine>, reg: u8, k: int)
    requires
        is_run(trace),
        0 <= k < trace.len(),
        trace[0].wf(),
        trace[0].pc + 1 < MEMORY_SIZE,
        reg < 16,
        decode_spec(current_word(trace[0])) == Some(Instruction::LdKey { reg }),
        first_key(trace[0].keys) is None,
    ensures
        trace[k] == trace[0],
    decreases k,
{
    if k > 0 {
        lemma_run_stays(trace, reg, k - 1);
        let j = k - 1;
        assert(steps_to(trace[j], trace[j + 1]));
        lemma_wait_for_key_step(trace[k - 1], trace[k], reg);
    }
}

/// Fetches, decodes and executes one instruction. Where that cannot be
/// done, the machine is left as it was and the reason is returned.
pub fn step(chip8: &mut Chip8) -> (r: Result<(), Fault>)
    ensures
        r == match step_fault(old(chip8)@) {
            Some(f) => Err(f),
            None => Ok(()),
        },
        r is Err ==> final(chip8)@ == old(chip8)@,
        r is Ok ==> steps_to(old(chip8)@, final(chip8)@),
{
    let ghost s = chip8@;
    if chip8.regs.pc as usize + 1 >= MEMORY_SIZE {
        return Err(Fault::PcOutOfRange { pc: chip8.regs.pc });
    }
    let pc = chip8.regs.pc;
    let word = fetch_instruction(&mut chip8.regs, &chip8.memory);
    assert(chip8@ == fetched(s));
    match decode_opcode(word) {
        None => {
            chip8.regs.pc = pc;
            assert(chip8@ =~= s);
            Err(Fault::UnknownOpcode { word })
        },
        Some(ins) => {
            if can_execute(&ins, chip8) {
                execute_instruction(&ins, chip8);
                proof {
                    reveal(steps_to);
                }
                Ok(())
            } else {
                chip8.regs.pc = pc;
                assert(chip8@ =~= s);
                Err(Fault::BadOperands { instruction: ins })
            }
        },
    }
}

/// Runs one display frame: a fixed batch of instructions, then one tick of
/// both timers. Stops at the first instruction that cannot run and returns
/// why, with the machine as it was just before that instruction.
pub fn emulation_step(chip8: &mut Chip8) -> (r: Result<(), Fault>)
    ensures
        r is Ok ==> exists|trace: Seq<Machine>|
            #[trigger] is_run(trace) && trace.len() == INSTRUCTIONS_PER_FRAME + 1 && trace[0]
                == old(chip8)@ && final(chip8)@ == trace.last().with_timers_decremented(),
        r matches Err(f) ==> exists|trace: Seq<Machine>|
            #[trigger] is_run(trace) && 1 <= trace.len() <= INSTRUCTIONS_PER_FRAME && trace[0]
                == old(chip8)@ && final(chip8)@ == trace.last() && step_fault(final(chip8)@)
                == Some(f),
{
    let ghost mut trace: Seq<Machine> = seq![chip8@];
    let mut k: usize = 0;
    while k < INSTRUCTIONS_PER_FRAME
        invariant
            k <= INSTRUCTIONS_PER_FRAME,
            trace.len() == k + 1,
            trace[0] == old(chip8)@,
            trace.last() == chip8@,
            is_run(trace),
        decreases INSTRUCTIONS_PER_FRAME - k,
    {
        match step(chip8) {
            Err(f) => {
                return Err(f);
            },
            Ok(()) => {},
        }
        proof {
            let next = trace.push(chip8@);
            assert forall|j: int| 0 <= j < next.len() - 1 implies #[trigger] steps_to(next[j], next[j + 1]) by {
                if j < trace.len() - 1 {
                    assert(steps_to(trace[j], trace[j + 1]));
                }
            }
            trace = next;
        }
        k = k + 1;
    }
    chip8.decrement_timers();
    Ok(())
}

} // verus!
