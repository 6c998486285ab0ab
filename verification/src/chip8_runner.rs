//! Running the engine frame by frame: a fixed number of cycles, then the
//! vertical blank and a tick of the timers.

use vstd::prelude::*;
use crate::chip8::Chip8;
use crate::error::Chip8Error;
use crate::machine::{stepped, Machine};

verus! {

/// Instructions per second.
pub const CLOCK_SPEED: u32 = 500;

/// Frames per second.
pub const REFRESH_RATE: u32 = 60;

/// Cycles that make up one frame.
pub const CYCLES_PER_FRAME: u32 = CLOCK_SPEED / REFRESH_RATE;

/// How a run ended: the machine it left, and the error that stopped it, if
/// one did.
pub struct Run {
    pub machine: Machine,
    pub error: Option<Chip8Error>,
}

/// The machine that cycle number `cycles`, counted from 0, of a run starts
/// from: the one that the cycles before it left, after the end of a frame
/// where these cycles make up whole frames.
pub open spec fn before_cycle(start: Machine, cycles: nat, draws: Seq<u8>) -> Machine
    decreases cycles, 2nat,
{
    let machine = run(start, cycles, draws).machine;
    if cycles > 0 && cycles % (CYCLES_PER_FRAME as nat) == 0 {
        machine.end_frame()
    } else {
        machine
    }
}

/// A run of `cycles` cycles with no key pressed, in which cycle `i` has
/// `draws[i]` for its random byte. An error ends the run, and leaves the
/// machine as it was before the cycle that failed.
pub open spec fn run(start: Machine, cycles: nat, draws: Seq<u8>) -> Run
    decreases cycles, 1nat,
{
    if cycles == 0 {
        Run { machine: start, error: None }
    } else {
        let earlier = run(start, (cycles - 1) as nat, draws);
        if earlier.error is Some {
            earlier
        } else {
            let machine = before_cycle(start, (cycles - 1) as nat, draws);
            match machine.cycle(None, draws[cycles - 1]) {
                Ok(after) => Run { machine: after, error: None },
                Err(error) => Run { machine, error: Some(error) },
            }
        }
    }
}

/// That a run of `cycles` cycles from `start`, with the random bytes
/// `draws`, has `result` and leaves the machine `after`.
pub open spec fn ran(
    start: Machine,
    cycles: nat,
    draws: Seq<u8>,
    result: Result<(), Chip8Error>,
    after: Machine,
) -> bool {
    let outcome = run(start, cycles, draws);
    &&& draws.len() == cycles
    &&& after == outcome.machine
    &&& result == match outcome.error {
        None => Ok::<(), Chip8Error>(()),
        Some(error) => Err::<(), Chip8Error>(error),
    }
}

/// Whether a run stops after `cycles` cycles, because the machine then
/// waits for a key or an error has come up.
pub open spec fn stops(start: Machine, cycles: nat, draws: Seq<u8>) -> bool {
    let outcome = run(start, cycles, draws);
    cycles >= 1 && (outcome.error is Some || outcome.machine.blocked)
}

/// That a run from `start` with at most `max_cycles` cycles, which ends as
/// soon as the machine waits for a key, took `cycles` cycles with the random
/// bytes `draws`, has `result` and leaves the machine `after`. The result
/// tells whether the machine waits for a key.
pub open spec fn ran_until_blocked(
    start: Machine,
    max_cycles: nat,
    cycles: nat,
    draws: Seq<u8>,
    result: Result<bool, Chip8Error>,
    after: Machine,
) -> bool {
    let outcome = run(start, cycles, draws);
    &&& draws.len() == cycles
    &&& cycles <= max_cycles
    &&& forall|earlier: nat| earlier < cycles ==> !#[trigger] stops(start, earlier, draws)
    &&& stops(start, cycles, draws) || cycles == max_cycles
    &&& after == outcome.machine
    &&& result == match outcome.error {
        None => Ok::<bool, Chip8Error>(stops(start, cycles, draws)),
        Some(error) => Err::<bool, Chip8Error>(error),
    }
}

/// What one cycle of an interactive session makes of the machine, with
/// `key` the key that is pressed, if any: a machine that waits for a key
/// takes the key, if there is one, and executes nothing; any other executes
/// its next instruction.
pub open spec fn interactive_cycle(machine: Machine, key: Option<u8>, random: u8) -> Result<
    Machine,
    Chip8Error,
> {
    if machine.blocked {
        match key {
            Some(k) => Ok(machine.set_key(k)),
            None => Ok(machine),
        }
    } else {
        machine.cycle(key, random)
    }
}

/// A run goes by the random bytes of its own cycles only.
pub proof fn lemma_run_prefix(start: Machine, cycles: nat, draws: Seq<u8>, other: Seq<u8>)
    requires
        cycles <= draws.len(),
        cycles <= other.len(),
        forall|i: int| 0 <= i < cycles ==> draws[i] == other[i],
    ensures
        run(start, cycles, draws) == run(start, cycles, other),
        before_cycle(start, cycles, draws) == before_cycle(start, cycles, other),
    decreases cycles,
{
    if cycles > 0 {
        lemma_run_prefix(start, (cycles - 1) as nat, draws, other);
    }
}

/// Once an error has ended a run, further cycles change nothing.
pub proof fn lemma_run_sticks(start: Machine, cycles: nat, more: nat, draws: Seq<u8>)
    requires
        cycles <= more,
        run(start, cycles, draws).error is Some,
    ensures
        run(start, more, draws) == run(start, cycles, draws),
    decreases more,
{
    if cycles < more {
        lemma_run_sticks(start, cycles, (more - 1) as nat, draws);
    }
}

/// Where in its frame a cycle lies.
proof fn lemma_frame_position(cycles: nat, frames: nat, in_frame: nat)
    requires
        cycles == 8 * frames + in_frame,
        in_frame < 8,
    ensures
        CYCLES_PER_FRAME == 8,
        (cycles % (CYCLES_PER_FRAME as nat) == 0) == (in_frame == 0),
{
    assert(CYCLES_PER_FRAME == 8);
    assert((8 * frames + in_frame) % 8 == in_frame);
}

/// What the next cycle adds to a run: the run so far took `cycles` cycles
/// without an error, and its next cycle made `after` of the machine `before`
/// and had the result `step`.
proof fn lemma_run_step(
    start: Machine,
    cycles: nat,
    draws: Seq<u8>,
    frames: nat,
    in_frame: nat,
    before: Machine,
    random: u8,
    step: Result<(), Chip8Error>,
    after: Machine,
)
    requires
        draws.len() == cycles,
        cycles == 8 * frames + in_frame,
        in_frame < 8,
        run(start, cycles, draws).error is None,
        before == before_cycle(start, cycles, draws),
        stepped(before, before.cycle(None, random), step, after),
    ensures
        ({
            let longer = draws.push(random);
            &&& longer.len() == cycles + 1
            &&& run(start, cycles + 1, longer).machine == after
            &&& run(start, cycles + 1, longer).error == match step {
                Ok(_) => None::<Chip8Error>,
                Err(error) => Some(error),
            }
            &&& in_frame + 1 < 8 ==> before_cycle(start, cycles + 1, longer) == after
            &&& forall|earlier: nat|
                earlier <= cycles ==> #[trigger] stops(start, earlier, longer) == stops(
                    start,
                    earlier,
                    draws,
                )
        }),
{
    let longer = draws.push(random);
    lemma_run_prefix(start, cycles, draws, longer);
    assert forall|earlier: nat| earlier <= cycles implies #[trigger] stops(start, earlier, longer)
        == stops(start, earlier, draws) by {
        lemma_run_prefix(start, earlier, draws, longer);
    }
    assert(longer[cycles as int] == random);
    if in_frame + 1 < 8 {
        lemma_frame_position(cycles + 1, frames, in_frame + 1);
    }
}

/// After a whole frame, the next cycle starts from where the frame's end
/// leaves the machine.
proof fn lemma_frame_ended(start: Machine, cycles: nat, draws: Seq<u8>, frames: nat)
    requires
        cycles == 8 * frames,
        frames > 0,
    ensures
        before_cycle(start, cycles, draws) == run(start, cycles, draws).machine.end_frame(),
{
    lemma_frame_position(cycles, frames, 0);
}

/// Runs one cycle of an interactive session, with `key` the key that is
/// pressed, if any. A machine that waits for a key takes the key, if there
/// is one, and executes nothing; any other executes its next instruction.
pub fn run_cycle(chip8: &mut Chip8, key: Option<u8>) -> (res: Result<(), Chip8Error>)
    requires
        old(chip8)@.wf(),
    ensures
        exists|random: u8|
            stepped(
                old(chip8)@,
                #[trigger] interactive_cycle(old(chip8)@, key, random),
                res,
                final(chip8)@,
            ),
        final(chip8)@.wf(),
{
    if chip8.blocked {
        if let Some(k) = key {
            chip8.set_key(k)
        }
        assert(stepped(old(chip8)@, interactive_cycle(old(chip8)@, key, 0), Ok(()), chip8@));
        return Ok(());
    }
    let res = chip8.execute_next_opcode(key);
    proof {
        let random = choose|random: u8|
            stepped(old(chip8)@, #[trigger] old(chip8)@.cycle(key, random), res, chip8@);
        assert(stepped(old(chip8)@, interactive_cycle(old(chip8)@, key, random), res, chip8@));
    }
    res
}

/// Ends a frame: the vertical blank, then a tick of both timers.
pub fn end_frame(chip8: &mut Chip8)
    ensures
        final(chip8)@ == old(chip8)@.end_frame(),
{
    chip8.handle_vblank();
    chip8.decrement_timers();
}

/// Runs the machine, with no key pressed, until it waits for a key, but for
/// `max_cycles` cycles at most. Returns whether it waits for a key.
///
/// Fails as soon as a cycle fails; the machine is then left as it was
/// before that cycle.
pub fn run_stop_on_blocked(chip8: &mut Chip8, max_cycles: u64) -> (res: Result<bool, Chip8Error>)
    requires
        old(chip8)@.wf(),
    ensures
        exists|cycles: nat, draws: Seq<u8>| #[trigger]
            ran_until_blocked(old(chip8)@, max_cycles as nat, cycles, draws, res, final(chip8)@),
        final(chip8)@.wf(),
{
    let ghost start = chip8@;
    let ghost mut draws: Seq<u8> = Seq::empty();
    let ghost mut frames: nat = 0;
    let mut elapsed_cycles: u64 = 0;
    if max_cycles == 0 {
        assert(ran_until_blocked(start, 0, 0, draws, Ok(false), chip8@));
        return Ok(false);
    }
    loop
        invariant
            start == old(chip8)@,
            chip8@.wf(),
            elapsed_cycles < max_cycles,
            draws.len() == elapsed_cycles,
            elapsed_cycles == 8 * frames,
            run(start, elapsed_cycles as nat, draws).error is None,
            chip8@ == before_cycle(start, elapsed_cycles as nat, draws),
            forall|earlier: nat|
                earlier <= elapsed_cycles ==> !#[trigger] stops(start, earlier, draws),
        decreases max_cycles - elapsed_cycles,
    {
        let mut in_frame: u32 = 0;
        assert(CYCLES_PER_FRAME == 8);
        while in_frame < CYCLES_PER_FRAME
            invariant
                CYCLES_PER_FRAME == 8,
                start == old(chip8)@,
                chip8@.wf(),
                in_frame <= 8,
                elapsed_cycles < max_cycles,
                draws.len() == elapsed_cycles,
                elapsed_cycles == 8 * frames + in_frame,
                run(start, elapsed_cycles as nat, draws).error is None,
                in_frame < 8 ==> chip8@ == before_cycle(start, elapsed_cycles as nat, draws),
                in_frame > 0 ==> chip8@ == run(start, elapsed_cycles as nat, draws).machine,
                forall|earlier: nat|
                    earlier <= elapsed_cycles ==> !#[trigger] stops(start, earlier, draws),
            decreases 8 - in_frame,
        {
            let ghost before = chip8@;
            let step = chip8.execute_next_opcode(None);
            proof {
                let random = choose|random: u8|
                    stepped(before, #[trigger] before.cycle(None, random), step, chip8@);
                lemma_run_step(
                    start,
                    elapsed_cycles as nat,
                    draws,
                    frames,
                    in_frame as nat,
                    before,
                    random,
                    step,
                    chip8@,
                );
                draws = draws.push(random);
            }
            elapsed_cycles += 1;
            in_frame += 1;
            if let Err(error) = step {
                assert(ran_until_blocked(
                    start,
                    max_cycles as nat,
                    elapsed_cycles as nat,
                    draws,
                    Err(error),
                    chip8@,
                ));
                return Err(error);
            }
            if chip8.blocked {
                assert(ran_until_blocked(
                    start,
                    max_cycles as nat,
                    elapsed_cycles as nat,
                    draws,
                    Ok(true),
                    chip8@,
                ));
                return Ok(true);
            }
            if elapsed_cycles == max_cycles {
                assert(ran_until_blocked(
                    start,
                    max_cycles as nat,
                    elapsed_cycles as nat,
                    draws,
                    Ok(false),
                    chip8@,
                ));
                return Ok(false);
            }
        }

        end_frame(chip8);
        proof {
            frames = frames + 1;
            lemma_frame_ended(start, elapsed_cycles as nat, draws, frames);
        }
    }
}

/// Runs the machine for `cycles` cycles, with no key pressed.
///
/// Fails as soon as a cycle fails; the machine is then left as it was
/// before that cycle.
pub fn run_for_cycles(chip8: &mut Chip8, cycles: u16) -> (res: Result<(), Chip8Error>)
    requires
        old(chip8)@.wf(),
        cycles > 0,
    ensures
        exists|draws: Seq<u8>| #[trigger] ran(old(chip8)@, cycles as nat, draws, res, final(chip8)@),
        final(chip8)@.wf(),
{
    let ghost start = chip8@;
    let ghost mut draws: Seq<u8> = Seq::empty();
    let ghost mut frames: nat = 0;
    let mut elapsed_cycles: u16 = 0;
    loop
        invariant
            start == old(chip8)@,
            chip8@.wf(),
            elapsed_cycles < cycles,
            draws.len() == elapsed_cycles,
            elapsed_cycles == 8 * frames,
            run(start, elapsed_cycles as nat, draws).error is None,
            chip8@ == before_cycle(start, elapsed_cycles as nat, draws),
        decreases cycles - elapsed_cycles,
    {
        let mut in_frame: u32 = 0;
        assert(CYCLES_PER_FRAME == 8);
        while in_frame < CYCLES_PER_FRAME
            invariant
                CYCLES_PER_FRAME == 8,
                start == old(chip8)@,
                chip8@.wf(),
                in_frame <= 8,
                elapsed_cycles < cycles,
                draws.len() == elapsed_cycles,
                elapsed_cycles == 8 * frames + in_frame,
                run(start, elapsed_cycles as nat, draws).error is None,
                in_frame < 8 ==> chip8@ == before_cycle(start, elapsed_cycles as nat, draws),
                in_frame > 0 ==> chip8@ == run(start, elapsed_cycles as nat, draws).machine,
            decreases 8 - in_frame,
        {
            let ghost before = chip8@;
            let step = chip8.execute_next_opcode(None);
            proof {
                let random = choose|random: u8|
                    stepped(before, #[trigger] before.cycle(None, random), step, chip8@);
                lemma_run_step(
                    start,
                    elapsed_cycles as nat,
                    draws,
                    frames,
                    in_frame as nat,
                    before,
                    random,
                    step,
                    chip8@,
                );
                draws = draws.push(random);
            }
            if let Err(error) = step {
                proof {
                    let rest = Seq::new((cycles - elapsed_cycles - 1) as nat, |i: int| 0u8);
                    let all = draws + rest;
                    lemma_run_prefix(start, (elapsed_cycles + 1) as nat, draws, all);
                    lemma_run_sticks(start, (elapsed_cycles + 1) as nat, cycles as nat, all);
                    assert(ran(start, cycles as nat, all, Err(error), chip8@));
                }
                return Err(error);
            }
            elapsed_cycles += 1;
            in_frame += 1;
            if elapsed_cycles == cycles {
                assert(ran(start, cycles as nat, draws, Ok(()), chip8@));
                return Ok(());
            }
        }

        end_frame(chip8);
        proof {
            frames = frames + 1;
            lemma_frame_ended(start, elapsed_cycles as nat, draws, frames);
        }
    }
}

} // verus!
