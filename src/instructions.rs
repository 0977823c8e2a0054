//! Decoding and running one instruction word.
use vstd::prelude::*;

use crate::decode::decode;
use crate::hardware::CPU;
use crate::model::{runs_word, ExecutionError, StepOutcome};

verus! {

/// Decodes `instruction` and runs it on `cpu`, with `random` as the byte that
/// the random instruction masks. A word outside the instruction set fails
/// with `UnrecognizedOpcode`; on every failure `cpu` is left as it was.
/// While a wait-for-key instruction is unfinished the word is not run: the
/// call does what `CPU::finish_wait` does.
pub fn decode_and_run_instruction(cpu: &mut CPU, instruction: u16, random: u8) -> (r: Result<
    StepOutcome,
    ExecutionError,
>)
    requires
        old(cpu).wf(),
    ensures
        final(cpu).wf(),
        runs_word(old(cpu)@, instruction, random, final(cpu)@, r),
        old(cpu)@.waiting ==> r == Ok::<StepOutcome, ExecutionError>(
            StepOutcome::WaitingForKey,
        ) && final(cpu)@ == old(cpu)@,
{
    if let Some(r) = cpu.finish_wait() {
        return r;
    }
    match decode(instruction) {
        Some(op) => cpu.execute(op, random),
        None => Err(ExecutionError::UnrecognizedOpcode),
    }
}

} // verus!
