use vstd::prelude::*;
use crate::display::{
    blank_frame, collision_spec, draw_spec, frame_wf, lemma_draw_nothing, lemma_draw_row_by_row,
    lemma_draw_twice_restores, lemma_redraw_collides, sprite_visible, Display, Frame,
};
use crate::error::Error;
use crate::instruction::{decode_spec, second_nibble, Instruction, IntExt};
use crate::memory::{
    initial_memory, read_u16_spec, read_u8_spec, write_u8_result, write_u8_spec, Memory, RegIdx,
    Registers,
};
use crate::Args;

verus! {

/// The machine as a mathematical value.
#[verifier::ext_equal]
pub struct Machine {
    /// The configuration, which never changes.
    pub args: Args,
    /// The 4096 memory cells.
    pub memory: Seq<u8>,
    /// The sixteen general registers.
    pub regs: Seq<u8>,
    /// The return addresses of the calls under way, the latest last. The
    /// stack has no limit.
    pub stack: Seq<u16>,
    /// The index register.
    pub index: u16,
    pub delay_timer: u8,
    pub sound_timer: u8,
    /// The program counter.
    pub pc: u16,
    /// The frame that is being drawn.
    pub frame: Frame,
    /// The frame that was presented last.
    pub old_frame: Frame,
}

/// A machine and what the step that led to it reports: whether the frame
/// was presented, or the fault on which it stopped.
pub struct Outcome {
    pub machine: Machine,
    pub result: Result<bool, Error>,
}

/// What one turn of the main loop asks of its surroundings.
#[derive(Debug, Clone, Copy, PartialEq, Eq, Structural)]
pub struct Cycle {
    /// The frame was presented and is to be painted.
    pub present: bool,
    /// The timers were advanced: elapsed time counts from now.
    pub timers_ticked: bool,
    /// The tone is on.
    pub tone: bool,
}

/// The machine before its first instruction.
pub open spec fn initial_machine(rom: Seq<u8>, args: Args) -> Machine {
    Machine {
        args,
        memory: initial_memory(rom),
        regs: Seq::new(16, |i: int| 0u8),
        stack: Seq::empty(),
        index: 0,
        delay_timer: 0,
        sound_timer: 0,
        pc: 512,
        frame: blank_frame(),
        old_frame: blank_frame(),
    }
}

/// `v` reduced to eight bits.
pub open spec fn wrap_u8(v: int) -> u8 {
    (v % 0x100) as u8
}

/// `v` reduced to sixteen bits.
pub open spec fn wrap_u16(v: int) -> u16 {
    (v % 0x1_0000) as u16
}

/// Whether keypad key `key` is held. A number that names no key is the
/// number of a key that is not held.
pub open spec fn key_held(keys: Seq<bool>, key: int) -> bool {
    0 <= key < keys.len() && keys[key]
}

/// Whether `key` is held and no key with a lower number is.
pub open spec fn is_first_held(keys: Seq<bool>, key: int) -> bool {
    &&& key_held(keys, key)
    &&& forall|lower: int| 0 <= lower < key ==> !keys[lower]
}

/// The lowest key that is held, if any is.
pub open spec fn first_held(keys: Seq<bool>) -> Option<int> {
    if exists|key: int| is_first_held(keys, key) {
        Some(choose|key: int| is_first_held(keys, key))
    } else {
        None
    }
}

/// A key that is held below which none is held is the first held key.
pub proof fn lemma_first_held_unique(keys: Seq<bool>, key: int)
    requires
        is_first_held(keys, key),
    ensures
        first_held(keys) == Some(key),
{
    let chosen = choose|k: int| is_first_held(keys, k);
    if chosen < key {
        assert(!keys[chosen]);
    } else if key < chosen {
        assert(!keys[key]);
    }
}

/// Where no key is held there is no first held key.
pub proof fn lemma_first_held_none(keys: Seq<bool>)
    requires
        forall|key: int| 0 <= key < keys.len() ==> !keys[key],
    ensures
        first_held(keys) is None,
{
}

/// How many of the `count` cells from `base` on exist.
pub open spec fn cells_in_range(base: int, count: int) -> int {
    if base + count <= 4096 {
        count
    } else if base < 4096 {
        4096 - base
    } else {
        0
    }
}

/// The `count` cells of `mem` from `base` on.
pub open spec fn cells(mem: Seq<u8>, base: int, count: int) -> Seq<u8> {
    Seq::new(count as nat, |i: int| mem[base + i])
}

/// Memory after `values` are stored in consecutive cells from `base` on.
pub open spec fn store_spec(mem: Seq<u8>, base: int, values: Seq<u8>) -> Seq<u8> {
    Seq::new(
        mem.len(),
        |a: int|
            if base <= a < base + values.len() {
                values[a - base]
            } else {
                mem[a]
            },
    )
}

/// The three decimal digits of `value`: hundreds, tens, ones.
pub open spec fn bcd_digits(value: u8) -> Seq<u8> {
    seq![value / 100, (value / 10) % 10, value % 10]
}

/// The machine with the program counter moved past the next instruction
/// if `cond` holds.
pub open spec fn skip_spec(m: Machine, cond: bool) -> Machine {
    if cond {
        Machine { pc: (m.pc + 2) as u16, ..m }
    } else {
        m
    }
}

/// The machine with new registers.
pub open spec fn with_regs(m: Machine, regs: Seq<u8>) -> Machine {
    Machine { regs, ..m }
}

/// The step of an instruction that cannot fail and presents nothing.
pub open spec fn done(machine: Machine) -> Outcome {
    Outcome { machine, result: Ok(false) }
}

/// 8XY4: VX becomes the sum of VX and VY, then VF says whether the sum
/// left eight bits.
pub open spec fn add_spec(regs: Seq<u8>, x: int, y: int) -> Seq<u8> {
    let sum = regs[x] + regs[y];
    regs.update(x, wrap_u8(sum)).update(
        15,
        if sum > 0xFF {
            1u8
        } else {
            0u8
        },
    )
}

/// 8XY5 and 8XY7: VX becomes `minuend - subtrahend`, then VF says that
/// there was no borrow.
pub open spec fn sub_spec(regs: Seq<u8>, x: int, minuend: u8, subtrahend: u8) -> Seq<u8> {
    regs.update(x, wrap_u8(minuend - subtrahend)).update(
        15,
        if minuend >= subtrahend {
            1u8
        } else {
            0u8
        },
    )
}

/// The registers from which a shift starts: with the old behaviour VX
/// first takes the value of VY.
pub open spec fn shift_source(regs: Seq<u8>, x: int, y: int, old_shift: bool) -> Seq<u8> {
    if old_shift {
        regs.update(x, regs[y])
    } else {
        regs
    }
}

/// 8XY6: VF takes the lowest bit of VX, then VX is halved.
pub open spec fn shr_spec(regs: Seq<u8>, x: int, y: int, old_shift: bool) -> Seq<u8> {
    let source = shift_source(regs, x, y, old_shift);
    let flagged = source.update(15, source[x] % 2);
    flagged.update(x, flagged[x] / 2)
}

/// 8XYE: VF takes the highest bit of VX, then VX is doubled.
pub open spec fn shl_spec(regs: Seq<u8>, x: int, y: int, old_shift: bool) -> Seq<u8> {
    let source = shift_source(regs, x, y, old_shift);
    let flagged = source.update(15, source[x] / 128);
    flagged.update(x, wrap_u8(flagged[x] * 2))
}

/// BNNN: the register whose value is added to the address.
pub open spec fn jump_register(nnn: u16, new_jump: bool) -> int {
    if new_jump {
        second_nibble(nnn) as int
    } else {
        0
    }
}

/// FX1E: the index register grows by VX, in sixteen bits; with the
/// overflow switch on, VF is set when the index has left the memory.
pub open spec fn add_index_spec(m: Machine, x: int) -> Machine {
    let index = wrap_u16(m.index + m.regs[x]);
    Machine {
        index,
        regs: if m.args.index_overflow && index >= 4096 {
            m.regs.update(15, 1u8)
        } else {
            m.regs
        },
        ..m
    }
}

/// The step that stores `values` from the index register on: the values
/// that have a cell are stored, and the first that has none is the fault.
pub open spec fn store_outcome(m: Machine, values: Seq<u8>) -> Outcome {
    let stored = cells_in_range(m.index as int, values.len() as int);
    Outcome {
        machine: Machine { memory: store_spec(m.memory, m.index as int, values.take(stored)), ..m },
        result: if stored == values.len() {
            Ok(false)
        } else {
            Err(Error::OutOfBoundsAccess { address: (m.index + stored) as u32 })
        },
    }
}

/// The index register after a store or a load of registers V0 to VX that
/// went well: with the old behaviour it points behind the last cell.
pub open spec fn index_after_transfer(m: Machine, x: int) -> u16 {
    if m.args.old_store_load_behavior {
        (m.index + x + 1) as u16
    } else {
        m.index
    }
}

/// FX55: V0 to VX are stored from the index register on.
pub open spec fn reg_store_spec(m: Machine, x: int) -> Outcome {
    let stored = store_outcome(m, m.regs.take(x + 1));
    if stored.result is Ok {
        Outcome {
            machine: Machine { index: index_after_transfer(m, x), ..stored.machine },
            result: stored.result,
        }
    } else {
        stored
    }
}

/// FX65: V0 to VX are loaded from the index register on. The registers
/// whose cell exists are loaded, and the first cell that does not exist
/// is the fault.
pub open spec fn reg_load_spec(m: Machine, x: int) -> Outcome {
    let loaded = cells_in_range(m.index as int, x + 1);
    let regs = Seq::new(
        16,
        |i: int|
            if i < loaded {
                m.memory[m.index + i]
            } else {
                m.regs[i]
            },
    );
    if loaded == x + 1 {
        Outcome {
            machine: Machine { regs, index: index_after_transfer(m, x), ..m },
            result: Ok(false),
        }
    } else {
        Outcome {
            machine: Machine { regs, ..m },
            result: Err(Error::OutOfBoundsAccess { address: (m.index + loaded) as u32 }),
        }
    }
}

/// DXYN: the sprite of `n` rows at the index register is drawn at
/// (VX mod 64, VY mod 32), VF says whether a lit pixel went off, and the
/// frame is presented. Only the rows whose cell exists are drawn; if one
/// has none, that is the fault and nothing is presented.
pub open spec fn draw_outcome(m: Machine, x: int, y: int, n: int) -> Outcome {
    let x0 = m.regs[x] as int % 64;
    let y0 = m.regs[y] as int % 32;
    let read = cells_in_range(m.index as int, n);
    let rows = cells(m.memory, m.index as int, read);
    let frame = draw_spec(m.frame, x0, y0, rows);
    let regs = m.regs.update(
        15,
        if collision_spec(m.frame, x0, y0, rows) {
            1u8
        } else {
            0u8
        },
    );
    if read == n {
        Outcome { machine: Machine { regs, frame, old_frame: frame, ..m }, result: Ok(true) }
    } else {
        Outcome {
            machine: Machine { regs, frame, ..m },
            result: Err(Error::OutOfBoundsAccess { address: (m.index + read) as u32 }),
        }
    }
}

/// FX0A: the lowest held key goes to VX; while no key is held the program
/// counter goes back to this instruction.
pub open spec fn get_key_spec(m: Machine, x: int, keys: Seq<bool>) -> Machine {
    match first_held(keys) {
        Some(key) => with_regs(m, m.regs.update(x, key as u8)),
        None => Machine { pc: (m.pc - 2) as u16, ..m },
    }
}

/// What executing `inst` makes of the machine `m`, whose program counter
/// is already behind the instruction. `keys` says which keys are held, and
/// `random` is the byte that a random instruction draws.
pub open spec fn execute_spec(m: Machine, inst: Instruction, keys: Seq<bool>, random: u8) -> Outcome {
    match inst {
        Instruction::ClearScreen => Outcome {
            machine: Machine { frame: blank_frame(), old_frame: blank_frame(), ..m },
            result: Ok(true),
        },
        Instruction::Jump(nnn) => done(Machine { pc: nnn, ..m }),
        Instruction::Return => if m.stack.len() > 0 {
            done(Machine { pc: m.stack.last(), stack: m.stack.drop_last(), ..m })
        } else {
            Outcome { machine: m, result: Err(Error::StackUnderflow) }
        },
        Instruction::Call(nnn) => done(Machine { pc: nnn, stack: m.stack.push(m.pc), ..m }),
        Instruction::SkipEqIm(x, nn) => done(skip_spec(m, m.regs[x@] == nn)),
        Instruction::SkipNeIm(x, nn) => done(skip_spec(m, m.regs[x@] != nn)),
        Instruction::SkipEq(x, y) => done(skip_spec(m, m.regs[x@] == m.regs[y@])),
        Instruction::SkipNe(x, y) => done(skip_spec(m, m.regs[x@] != m.regs[y@])),
        Instruction::SetIm(x, nn) => done(with_regs(m, m.regs.update(x@, nn))),
        Instruction::AddIm(x, nn) => done(
            with_regs(m, m.regs.update(x@, wrap_u8(m.regs[x@] + nn))),
        ),
        Instruction::SetReg(x, y) => done(with_regs(m, m.regs.update(x@, m.regs[y@]))),
        Instruction::Or(x, y) => done(with_regs(m, m.regs.update(x@, m.regs[x@] | m.regs[y@]))),
        Instruction::And(x, y) => done(with_regs(m, m.regs.update(x@, m.regs[x@] & m.regs[y@]))),
        Instruction::Xor(x, y) => done(with_regs(m, m.regs.update(x@, m.regs[x@] ^ m.regs[y@]))),
        Instruction::Add(x, y) => done(with_regs(m, add_spec(m.regs, x@, y@))),
        Instruction::Sub(x, y) => done(
            with_regs(m, sub_spec(m.regs, x@, m.regs[x@], m.regs[y@])),
        ),
        Instruction::SubOpp(x, y) => done(
            with_regs(m, sub_spec(m.regs, x@, m.regs[y@], m.regs[x@])),
        ),
        Instruction::Shr(x, y) => done(
            with_regs(m, shr_spec(m.regs, x@, y@, m.args.old_shift_behavior)),
        ),
        Instruction::Shl(x, y) => done(
            with_regs(m, shl_spec(m.regs, x@, y@, m.args.old_shift_behavior)),
        ),
        Instruction::SetIndex(nnn) => done(Machine { index: nnn, ..m }),
        Instruction::JumpV0(nnn) => done(
            Machine {
                pc: (m.regs[jump_register(nnn, m.args.new_jump_behavior)] + nnn) as u16,
                ..m
            },
        ),
        Instruction::RandAnd(x, nn) => done(with_regs(m, m.regs.update(x@, random & nn))),
        Instruction::Draw(x, y, n) => draw_outcome(m, x@, y@, n as int),
        Instruction::SkipKeyEq(x) => done(skip_spec(m, key_held(keys, m.regs[x@] as int))),
        Instruction::SkipKeyNe(x) => done(skip_spec(m, !key_held(keys, m.regs[x@] as int))),
        Instruction::GetDelay(x) => done(with_regs(m, m.regs.update(x@, m.delay_timer))),
        Instruction::SetDelay(x) => done(Machine { delay_timer: m.regs[x@], ..m }),
        Instruction::SetSound(x) => done(Machine { sound_timer: m.regs[x@], ..m }),
        Instruction::AddIndex(x) => done(add_index_spec(m, x@)),
        Instruction::GetKey(x) => done(get_key_spec(m, x@, keys)),
        Instruction::IndexCharacter(x) => done(
            Machine { index: (0x50 + 5 * (m.regs[x@] % 16)) as u16, ..m },
        ),
        Instruction::SetBcd(x) => store_outcome(m, bcd_digits(m.regs[x@])),
        Instruction::RegStore(x) => reg_store_spec(m, x@),
        Instruction::RegLoad(x) => reg_load_spec(m, x@),
    }
}

/// The instruction at the program counter, with the machine whose program
/// counter is behind it; or the fault: a word that does not lie in memory
/// (the program counter then stays), or one that encodes no instruction.
pub open spec fn fetch_spec(m: Machine) -> (Machine, Result<Instruction, Error>) {
    match read_u16_spec(m.memory, m.pc as int) {
        Err(e) => (m, Err(e)),
        Ok(word) => {
            let fetched = Machine { pc: (m.pc + 2) as u16, ..m };
            match decode_spec(word) {
                Some(inst) => (fetched, Ok(inst)),
                None => (fetched, Err(Error::UnknownInstruction { word })),
            }
        },
    }
}

/// One instruction: fetched, decoded and executed.
pub open spec fn step_spec(m: Machine, keys: Seq<bool>, random: u8) -> Outcome {
    let (fetched, inst) = fetch_spec(m);
    match inst {
        Err(e) => Outcome { machine: fetched, result: Err(e) },
        Ok(inst) => execute_spec(fetched, inst, keys, random),
    }
}

/// How many whole timer periods lie in `elapsed_ms`.
pub open spec fn periods_elapsed(m: Machine, elapsed_ms: int) -> int {
    elapsed_ms / (m.args.timer_period as int)
}

/// A timer `ticks` periods later: it counts down and stops at zero.
pub open spec fn timer_after(timer: u8, ticks: int) -> u8 {
    if ticks >= timer {
        0u8
    } else {
        (timer - ticks) as u8
    }
}

/// Whether at least one timer period has gone by.
pub open spec fn timers_due(m: Machine, elapsed_ms: int) -> bool {
    elapsed_ms >= m.args.timer_period
}

/// The machine after `elapsed_ms` milliseconds: once a period has gone by,
/// both timers count down by the number of whole periods and the frame is
/// presented.
pub open spec fn tick_spec(m: Machine, elapsed_ms: int) -> Machine {
    if timers_due(m, elapsed_ms) {
        Machine {
            delay_timer: timer_after(m.delay_timer, periods_elapsed(m, elapsed_ms)),
            sound_timer: timer_after(m.sound_timer, periods_elapsed(m, elapsed_ms)),
            old_frame: m.frame,
            ..m
        }
    } else {
        m
    }
}

/// One turn of the main loop: an instruction, then the timers. A fault
/// ends the turn before the timers.
pub open spec fn cycle_spec(m: Machine, keys: Seq<bool>, elapsed_ms: int, random: u8) -> (
    Machine,
    Result<Cycle, Error>,
) {
    let stepped = step_spec(m, keys, random);
    match stepped.result {
        Err(e) => (stepped.machine, Err(e)),
        Ok(presented) => {
            let ticked = tick_spec(stepped.machine, elapsed_ms);
            (
                ticked,
                Ok(
                    Cycle {
                        present: presented || timers_due(stepped.machine, elapsed_ms),
                        timers_ticked: timers_due(stepped.machine, elapsed_ms),
                        tone: ticked.sound_timer > 0,
                    },
                ),
            )
        },
    }
}

/// No instruction changes the configuration.
pub proof fn lemma_execute_keeps_args(m: Machine, inst: Instruction, keys: Seq<bool>, random: u8)
    ensures
        execute_spec(m, inst, keys, random).machine.args == m.args,
{
}

/// While no key is held, an instruction that waits for a key leaves the
/// machine exactly as it was: the program counter still points at the
/// instruction, which is thus fetched again.
pub proof fn lemma_get_key_waits(m: Machine, keys: Seq<bool>, random: u8, x: RegIdx)
    requires
        fetch_spec(m).1 == Ok::<Instruction, Error>(Instruction::GetKey(x)),
        forall|key: int| !key_held(keys, key),
    ensures
        step_spec(m, keys, random).machine == m,
        step_spec(m, keys, random).result == Ok::<bool, Error>(false),
{
    assert forall|key: int| 0 <= key < keys.len() implies !keys[key] by {
        assert(!key_held(keys, key));
    }
    lemma_first_held_none(keys);
}

/// Once a key is held, an instruction that waits for a key puts the
/// lowest held key into its register, and the program counter moves past
/// the instruction.
pub proof fn lemma_get_key_takes_lowest(
    m: Machine,
    keys: Seq<bool>,
    random: u8,
    x: RegIdx,
    key: int,
)
    requires
        fetch_spec(m).1 == Ok::<Instruction, Error>(Instruction::GetKey(x)),
        keys.len() == 16,
        is_first_held(keys, key),
    ensures
        step_spec(m, keys, random).machine == (Machine {
            pc: (m.pc + 2) as u16,
            regs: m.regs.update(x@, key as u8),
            ..m
        }),
        m.pc + 2 <= 4096,
        step_spec(m, keys, random).result == Ok::<bool, Error>(false),
{
    lemma_first_held_unique(keys, key);
}

/// Drawing the same sprite twice with the same coordinate registers gives
/// back the frame that was there before. On a blank frame the first
/// drawing leaves VF at 0 and the second sets it to 1, provided that the
/// sprite has a set bit on the grid. The sprite lies in memory, and
/// neither coordinate is taken from VF, which drawing overwrites.
pub proof fn lemma_draw_twice(
    m: Machine,
    x: RegIdx,
    y: RegIdx,
    n: u8,
    keys: Seq<bool>,
    random: u8,
)
    requires
        machine_wf(m),
        x.wf(),
        y.wf(),
        x@ != 15,
        y@ != 15,
        m.index + n <= 4096,
    ensures
        ({
            let inst = Instruction::Draw(x, y, n);
            let once = execute_spec(m, inst, keys, random);
            let twice = execute_spec(once.machine, inst, keys, random);
            let rows = cells(m.memory, m.index as int, n as int);
            &&& once.result == Ok::<bool, Error>(true)
            &&& twice.result == Ok::<bool, Error>(true)
            &&& twice.machine.frame == m.frame
            &&& m.frame == blank_frame() && sprite_visible(
                m.regs[x@] as int % 64,
                m.regs[y@] as int % 32,
                rows,
            ) ==> once.machine.regs[15] == 0 && twice.machine.regs[15] == 1
                && twice.machine.frame == blank_frame()
        }),
{
    x.lemma_wf_range();
    y.lemma_wf_range();
    let x0 = m.regs[x@] as int % 64;
    let y0 = m.regs[y@] as int % 32;
    let rows = cells(m.memory, m.index as int, n as int);
    lemma_draw_twice_restores(m.frame, x0, y0, rows);
    if m.frame == blank_frame() && sprite_visible(x0, y0, rows) {
        lemma_redraw_collides(x0, y0, rows);
    }
}

/// After exactly `periods` timer periods, `periods` being at least one,
/// both timers have counted down by `periods`, or to zero where they held
/// less. Before one period is over they do not move.
pub proof fn lemma_timer_decay(m: Machine, periods: int, early: int)
    requires
        m.args.timer_period > 0,
        periods >= 1,
        0 <= early < m.args.timer_period,
    ensures
        tick_spec(m, periods * m.args.timer_period).delay_timer == if m.delay_timer >= periods {
            m.delay_timer - periods
        } else {
            0
        },
        tick_spec(m, periods * m.args.timer_period).sound_timer == if m.sound_timer >= periods {
            m.sound_timer - periods
        } else {
            0
        },
        tick_spec(m, early) == m,
{
    let period = m.args.timer_period as int;
    assert(periods * period >= period && (periods * period) / period == periods)
        by (nonlinear_arith)
        requires
            period > 0,
            periods >= 1,
    ;
}

/// A right shift halves VY into VX where shifts take their operand from
/// VY, and halves VX in place where they do not; VF is the bit that left.
pub proof fn lemma_shift_right_quirk(regs: Seq<u8>, x: int, y: int)
    requires
        regs.len() == 16,
        0 <= x < 15,
        0 <= y < 16,
    ensures
        shr_spec(regs, x, y, true)[x] == regs[y] / 2,
        shr_spec(regs, x, y, true)[15] == regs[y] % 2,
        shr_spec(regs, x, y, false)[x] == regs[x] / 2,
        shr_spec(regs, x, y, false)[15] == regs[x] % 2,
{
}

/// A left shift doubles VY into VX where shifts take their operand from
/// VY, and doubles VX in place where they do not; VF is the bit that left.
pub proof fn lemma_shift_left_quirk(regs: Seq<u8>, x: int, y: int)
    requires
        regs.len() == 16,
        0 <= x < 15,
        0 <= y < 16,
    ensures
        shl_spec(regs, x, y, true)[x] == (regs[y] * 2) % 256,
        shl_spec(regs, x, y, true)[15] == regs[y] / 128,
        shl_spec(regs, x, y, false)[x] == (regs[x] * 2) % 256,
        shl_spec(regs, x, y, false)[15] == regs[x] / 128,
{
}

/// The lowest key that is held, if any is.
pub fn first_held_key(keys: &[bool; 16]) -> (key: Option<u8>)
    ensures
        key matches Some(k) ==> first_held(keys@) == Some(k as int) && k < 16,
        key is None ==> first_held(keys@) is None,
{
    let mut k: u8 = 0;
    while k < 16
        invariant
            k <= 16,
            forall|lower: int| 0 <= lower < k ==> !keys@[lower],
        decreases 16 - k,
    {
        if keys[k as usize] {
            proof {
                lemma_first_held_unique(keys@, k as int);
            }
            return Some(k);
        }
        k += 1;
    }
    proof {
        lemma_first_held_none(keys@);
    }
    None
}

/// Draws a byte from the generator that `rand::rng` hands to the calling
/// thread, with `Rng::random`. Nothing is claimed of the byte: any of the
/// 256 values may come, and two calls need not agree. The generator is
/// seeded from the operating system when the thread first asks for it,
/// and `rand` panics if the system has no entropy to give.
#[verifier::external_body]
fn random_byte() -> (byte: u8) {
    rand::Rng::random::<u8>(&mut rand::rng())
}

/// What holds of every machine that an emulator can be in: memory has 4096
/// cells, there are sixteen registers, and both frames measure 64 by 32.
pub open spec fn machine_wf(m: Machine) -> bool {
    &&& m.memory.len() == 4096
    &&& m.regs.len() == 16
    &&& frame_wf(m.frame)
    &&& frame_wf(m.old_frame)
}

/// The emulator: memory, registers, call stack, timers and display, with
/// the configuration they run under.
pub struct Chip8 {
    args: Args,
    memory: Memory,
    display: Display,
    stack: Vec<u16>,
    regs: Registers,
    index: u16,
    delay_timer: u8,
    sound_timer: u8,
    pc: u16,
}

impl View for Chip8 {
    type V = Machine;

    closed spec fn view(&self) -> Machine {
        Machine {
            args: self.args,
            memory: self.memory@,
            regs: self.regs@,
            stack: self.stack@,
            index: self.index,
            delay_timer: self.delay_timer,
            sound_timer: self.sound_timer,
            pc: self.pc,
            frame: self.display.frame(),
            old_frame: self.display.old_frame(),
        }
    }
}

impl Chip8 {
    /// The machine of every emulator is well formed.
    pub proof fn lemma_view_wf(&self)
        ensures
            machine_wf(self@),
    {
        self.memory.lemma_size();
        self.regs.lemma_size();
    }

    /// An emulator that is about to run `rom`, or the address of the first
    /// program byte for which memory has no cell.
    pub fn new(rom: &[u8], args: Args) -> (created: Result<Self, Error>)
        ensures
            rom@.len() <= 4096 - 512 ==> created is Ok && created->Ok_0@ == initial_machine(
                rom@,
                args,
            ),
            rom@.len() > 4096 - 512 ==> created == Err::<Self, Error>(
                Error::OutOfBoundsAccess { address: 4096 },
            ),
    {
        let memory = match Memory::load(rom) {
            Ok(memory) => memory,
            Err(e) => {
                return Err(e);
            },
        };
        Ok(
            Chip8 {
                args,
                memory,
                display: Display::new(),
                stack: Vec::new(),
                regs: Registers::new(),
                index: 0,
                sound_timer: 0,
                delay_timer: 0,
                pc: 512,
            },
        )
    }

    /// The configuration.
    pub fn args(&self) -> (args: &Args)
        ensures
            *args == self@.args,
    {
        &self.args
    }

    /// The memory.
    pub fn memory(&self) -> (memory: &Memory)
        ensures
            memory@ == self@.memory,
    {
        &self.memory
    }

    /// The display.
    pub fn display(&self) -> (display: &Display)
        ensures
            display.frame() == self@.frame,
            display.old_frame() == self@.old_frame,
    {
        &self.display
    }

    /// The general registers.
    pub fn regs(&self) -> (regs: &Registers)
        ensures
            regs@ == self@.regs,
    {
        &self.regs
    }

    /// The return addresses of the calls under way, the latest last.
    pub fn stack(&self) -> (stack: &Vec<u16>)
        ensures
            stack@ == self@.stack,
    {
        &self.stack
    }

    /// The index register.
    pub fn index(&self) -> (index: u16)
        ensures
            index == self@.index,
    {
        self.index
    }

    /// The program counter.
    pub fn pc(&self) -> (pc: u16)
        ensures
            pc == self@.pc,
    {
        self.pc
    }

    /// The delay timer.
    pub fn delay_timer(&self) -> (timer: u8)
        ensures
            timer == self@.delay_timer,
    {
        self.delay_timer
    }

    /// The sound timer. The tone is on while it is not zero.
    pub fn sound_timer(&self) -> (timer: u8)
        ensures
            timer == self@.sound_timer,
    {
        self.sound_timer
    }

    /// Fetches the instruction at the program counter and moves the
    /// program counter behind it.
    pub fn fetch_and_decode(&mut self) -> (fetched: Result<Instruction, Error>)
        ensures
            final(self)@ == fetch_spec(old(self)@).0,
            fetched == fetch_spec(old(self)@).1,
            fetched matches Ok(inst) ==> inst.wf() && 2 <= final(self)@.pc <= 4096,
            final(self)@.args == old(self)@.args,
    {
        let inst = match self.memory.read_u16(self.pc) {
            Ok(word) => word,
            Err(e) => {
                return Err(e);
            },
        };
        self.pc += 2;

        match Instruction::decode(inst) {
            Some(decoded) => Ok(decoded),
            None => Err(Error::UnknownInstruction { word: inst }),
        }
    }

    /// Skips the next instruction if `cond` holds.
    fn skip_if(&mut self, cond: bool)
        requires
            old(self)@.pc <= 0xFFFD,
        ensures
            final(self)@ == skip_spec(old(self)@, cond),
    {
        if cond {
            self.pc += 2
        }
    }

    /// The byte `offset` cells behind the index register.
    fn read_at(&self, offset: u8) -> (read: Result<u8, Error>)
        ensures
            read == read_u8_spec(self@.memory, self@.index + offset),
    {
        let address: u32 = self.index as u32 + offset as u32;
        if address < 4096 {
            self.memory.read_u8(address as u16)
        } else {
            Err(Error::OutOfBoundsAccess { address })
        }
    }

    /// Stores `byte` `offset` cells behind the index register.
    fn write_at(&mut self, offset: u8, byte: u8) -> (written: Result<(), Error>)
        ensures
            final(self)@ == (Machine {
                memory: write_u8_spec(old(self)@.memory, old(self)@.index + offset, byte),
                ..old(self)@
            }),
            written == write_u8_result(old(self)@.index + offset),
    {
        let address: u32 = self.index as u32 + offset as u32;
        if address < 4096 {
            self.memory.write_u8(address as u16, byte)
        } else {
            Err(Error::OutOfBoundsAccess { address })
        }
    }
    /// Draws the sprite of `n` rows at the index register at (VX mod 64,
    /// VY mod 32), sets VF if a lit pixel went off, and presents the frame.
    fn draw(&mut self, vx: RegIdx, vy: RegIdx, n: u8) -> (drawn: Result<(), Error>)
        requires
            n <= 15,
        ensures
            final(self)@ == draw_outcome(old(self)@, vx@, vy@, n as int).machine,
            drawn is Ok <==> draw_outcome(old(self)@, vx@, vy@, n as int).result is Ok,
            drawn matches Err(e) ==> draw_outcome(old(self)@, vx@, vy@, n as int).result == Err::<
                bool,
                Error,
            >(e),
    {
        let ghost start = self@;
        let ghost base = start.index as int;
        proof {
            self.lemma_view_wf();
        }
        let x = self.regs.get(vx) % Display::WIDTH;
        let y = self.regs.get(vy) % Display::HEIGHT;
        self.regs.set_flag(0);
        proof {
            lemma_draw_nothing(start.frame, x as int, y as int);
            assert(cells(start.memory, base, 0) =~= Seq::<u8>::empty());
        }

        let mut i: u8 = 0;
        while i < n
            invariant
                i <= n <= 15,
                x < 64,
                y < 32,
                x == start.regs[vx@] as int % 64,
                y == start.regs[vy@] as int % 32,
                start == old(self)@,
                base == start.index,
                machine_wf(start),
                i > 0 ==> base + i <= 4096,
                self@ == (Machine {
                    regs: start.regs.update(
                        15,
                        if collision_spec(
                            start.frame,
                            x as int,
                            y as int,
                            cells(start.memory, base, i as int),
                        ) {
                            1u8
                        } else {
                            0u8
                        },
                    ),
                    frame: draw_spec(
                        start.frame,
                        x as int,
                        y as int,
                        cells(start.memory, base, i as int),
                    ),
                    ..start
                }),
            decreases n - i,
        {
            let pixel = match self.read_at(i) {
                Ok(pixel) => pixel,
                Err(e) => {
                    assert(cells_in_range(base, n as int) == i);
                    return Err(e);
                },
            };
            let ghost rows = cells(start.memory, base, i as int);
            proof {
                lemma_draw_row_by_row(start.frame, x as int, y as int, rows, pixel);
                assert(rows.push(pixel) =~= cells(start.memory, base, i + 1));
            }
            if self.display.draw_row(x, y + i, pixel) {
                self.regs.set_flag(1);
            }
            i += 1;
        }
        assert(cells_in_range(base, n as int) == n);

        self.display.update();
        Ok(())
    }

    /// Stores the three decimal digits of VX from the index register on.
    fn set_bcd(&mut self, vx: RegIdx) -> (stored: Result<(), Error>)
        ensures
            final(self)@ == store_outcome(old(self)@, bcd_digits(old(self)@.regs[vx@])).machine,
            stored is Ok <==> store_outcome(old(self)@, bcd_digits(old(self)@.regs[vx@])).result
                is Ok,
            stored matches Err(e) ==> store_outcome(
                old(self)@,
                bcd_digits(old(self)@.regs[vx@]),
            ).result == Err::<bool, Error>(e),
    {
        let x = self.regs.get(vx);
        let ghost start = old(self)@;
        let ghost digits = bcd_digits(x);
        proof {
            self.lemma_view_wf();
            assert(store_spec(start.memory, start.index as int, digits.take(0)) =~= start.memory);
        }

        match self.write_at(0, x / 100) {
            Ok(()) => {},
            Err(e) => {
                return Err(e);
            },
        }
        assert(self@.memory =~= store_spec(start.memory, start.index as int, digits.take(1)));
        match self.write_at(1, (x / 10) % 10) {
            Ok(()) => {},
            Err(e) => {
                return Err(e);
            },
        }
        assert(self@.memory =~= store_spec(start.memory, start.index as int, digits.take(2)));
        match self.write_at(2, x % 10) {
            Ok(()) => {},
            Err(e) => {
                return Err(e);
            },
        }
        assert(self@.memory =~= store_spec(start.memory, start.index as int, digits.take(3)));
        Ok(())
    }

    /// Stores V0 to VX from the index register on.
    fn reg_store(&mut self, vx: RegIdx) -> (stored: Result<(), Error>)
        ensures
            final(self)@ == reg_store_spec(old(self)@, vx@).machine,
            stored is Ok <==> reg_store_spec(old(self)@, vx@).result is Ok,
            stored matches Err(e) ==> reg_store_spec(old(self)@, vx@).result == Err::<bool, Error>(
                e,
            ),
    {
        let last = vx.as_u8();
        let ghost start = old(self)@;
        let ghost base = start.index as int;
        let ghost values = start.regs.take(last + 1);
        proof {
            self.lemma_view_wf();
            assert(store_spec(start.memory, base, values.take(0)) =~= start.memory);
        }

        let mut idx: u8 = 0;
        while idx <= last
            invariant
                idx <= last + 1,
                last <= 15,
                last == vx@,
                start == old(self)@,
                base == start.index,
                machine_wf(start),
                values == start.regs.take(last + 1),
                idx > 0 ==> base + idx <= 4096,
                self@ == (Machine {
                    memory: store_spec(start.memory, base, values.take(idx as int)),
                    ..start
                }),
            decreases last + 1 - idx,
        {
            let value = self.regs.get(RegIdx::new(idx));
            match self.write_at(idx, value) {
                Ok(()) => {},
                Err(e) => {
                    assert(cells_in_range(base, last + 1) == idx);
                    return Err(e);
                },
            }
            assert(self@.memory =~= store_spec(start.memory, base, values.take(idx + 1)));
            idx += 1;
        }
        assert(cells_in_range(base, last + 1) == last + 1);
        assert(values.take(last + 1) =~= values);

        if self.args.old_store_load_behavior {
            self.index += last as u16 + 1;
        }
        Ok(())
    }

    /// Loads V0 to VX from the index register on.
    fn reg_load(&mut self, vx: RegIdx) -> (loaded: Result<(), Error>)
        ensures
            final(self)@ == reg_load_spec(old(self)@, vx@).machine,
            loaded is Ok <==> reg_load_spec(old(self)@, vx@).result is Ok,
            loaded matches Err(e) ==> reg_load_spec(old(self)@, vx@).result == Err::<bool, Error>(
                e,
            ),
    {
        let last = vx.as_u8();
        let ghost start = old(self)@;
        let ghost base = start.index as int;
        proof {
            self.lemma_view_wf();
        }

        let mut i: u8 = 0;
        while i <= last
            invariant
                i <= last + 1,
                last <= 15,
                last == vx@,
                start == old(self)@,
                base == start.index,
                machine_wf(start),
                i > 0 ==> base + i <= 4096,
                self@ == (Machine {
                    regs: Seq::new(
                        16,
                        |r: int|
                            if r < i {
                                start.memory[base + r]
                            } else {
                                start.regs[r]
                            },
                    ),
                    ..start
                }),
            decreases last + 1 - i,
        {
            let value = match self.read_at(i) {
                Ok(value) => value,
                Err(e) => {
                    assert(cells_in_range(base, last + 1) == i);
                    return Err(e);
                },
            };
            self.regs.set(RegIdx::new(i), value);
            i += 1;
        }
        assert(cells_in_range(base, last + 1) == last + 1);

        if self.args.old_store_load_behavior {
            self.index += last as u16 + 1;
        }
        Ok(())
    }

    /// The value of register `vx`.
    fn reg(&self, vx: RegIdx) -> (value: u8)
        ensures
            value == self@.regs[vx@],
    {
        self.regs.get(vx)
    }

    /// Sets register `vx` to `value`.
    fn set_reg(&mut self, vx: RegIdx, value: u8)
        ensures
            final(self)@ == with_regs(old(self)@, old(self)@.regs.update(vx@, value)),
    {
        self.regs.set(vx, value);
    }

    /// Continues at `target`.
    fn jump(&mut self, target: u16)
        ensures
            final(self)@ == (Machine { pc: target, ..old(self)@ }),
    {
        self.pc = target;
    }

    /// Calls the subroutine at `target`.
    fn call(&mut self, target: u16)
        ensures
            final(self)@ == (Machine {
                pc: target,
                stack: old(self)@.stack.push(old(self)@.pc),
                ..old(self)@
            }),
    {
        self.stack.push(self.pc);
        self.pc = target;
    }

    /// Returns from the subroutine under way.
    fn ret(&mut self) -> (returned: Result<(), Error>)
        ensures
            old(self)@.stack.len() > 0 ==> returned is Ok && final(self)@ == (Machine {
                pc: old(self)@.stack.last(),
                stack: old(self)@.stack.drop_last(),
                ..old(self)@
            }),
            old(self)@.stack.len() == 0 ==> returned == Err::<(), Error>(Error::StackUnderflow)
                && final(self)@ == old(self)@,
    {
        match self.stack.pop() {
            Some(pc) => {
                self.pc = pc;
                Ok(())
            },
            None => Err(Error::StackUnderflow),
        }
    }

    /// Adds VY to VX and sets VF on overflow.
    fn add_regs(&mut self, vx: RegIdx, vy: RegIdx)
        ensures
            final(self)@ == with_regs(old(self)@, add_spec(old(self)@.regs, vx@, vy@)),
    {
        let (x, y) = (self.regs.get(vx), self.regs.get(vy));
        let overflow = x as u16 + y as u16 > 0xFF;

        self.regs.set(vx, x.wrapping_add(y));
        self.regs.set_flag(if overflow { 1 } else { 0 });
    }

    /// Sets VX to `minuend - subtrahend` and VF unless there was a borrow.
    fn sub_regs(&mut self, vx: RegIdx, minuend: u8, subtrahend: u8)
        ensures
            final(self)@ == with_regs(
                old(self)@,
                sub_spec(old(self)@.regs, vx@, minuend, subtrahend),
            ),
    {
        self.regs.set(vx, minuend.wrapping_sub(subtrahend));
        self.regs.set_flag(if minuend >= subtrahend { 1 } else { 0 });
    }

    /// Shifts VX one bit to the right; the bit that leaves goes to VF.
    fn shift_right(&mut self, vx: RegIdx, vy: RegIdx)
        ensures
            final(self)@ == with_regs(
                old(self)@,
                shr_spec(old(self)@.regs, vx@, vy@, old(self)@.args.old_shift_behavior),
            ),
    {
        if self.args.old_shift_behavior {
            let y = self.regs.get(vy);
            self.regs.set(vx, y);
        }
        let source = self.regs.get(vx);
        assert(source & 1 == source % 2) by (bit_vector);
        self.regs.set_flag(source & 1);
        let flagged = self.regs.get(vx);
        assert(flagged >> 1 == flagged / 2) by (bit_vector);
        self.regs.set(vx, flagged >> 1);
    }

    /// Shifts VX one bit to the left; the bit that leaves goes to VF.
    fn shift_left(&mut self, vx: RegIdx, vy: RegIdx)
        ensures
            final(self)@ == with_regs(
                old(self)@,
                shl_spec(old(self)@.regs, vx@, vy@, old(self)@.args.old_shift_behavior),
            ),
    {
        if self.args.old_shift_behavior {
            let y = self.regs.get(vy);
            self.regs.set(vx, y);
        }
        let source = self.regs.get(vx);
        assert((source & 0b10000000) >> 7 == source / 128) by (bit_vector);
        self.regs.set_flag((source & 0b10000000) >> 7);
        let flagged = self.regs.get(vx);
        assert(flagged << 1 == (flagged * 2) % 0x100) by (bit_vector);
        self.regs.set(vx, flagged << 1);
    }

    /// Continues at `nnn` plus the value of V0, or of the register that the
    /// highest nibble of `nnn` names.
    fn jump_offset(&mut self, nnn: u16)
        requires
            nnn <= 0xFFF,
        ensures
            final(self)@ == (Machine {
                pc: (old(self)@.regs[jump_register(nnn, old(self)@.args.new_jump_behavior)]
                    + nnn) as u16,
                ..old(self)@
            }),
    {
        let reg = RegIdx::new(
            if self.args.new_jump_behavior {
                nnn.nibble2()
            } else {
                0
            },
        );

        self.pc = self.regs.get(reg) as u16 + nnn;
    }

    /// Adds VX to the index register.
    fn add_index(&mut self, vx: RegIdx)
        ensures
            final(self)@ == add_index_spec(old(self)@, vx@),
    {
        self.index = self.index.wrapping_add(self.regs.get(vx) as u16);
        if self.args.index_overflow && self.index >= 4096 {
            self.regs.set_flag(1);
        }
    }

    /// Points the index register at the glyph of the low nibble of VX.
    fn index_character(&mut self, vx: RegIdx)
        ensures
            final(self)@ == (Machine {
                index: (0x50 + 5 * (old(self)@.regs[vx@] % 16)) as u16,
                ..old(self)@
            }),
    {
        let x = self.regs.get(vx);
        assert(x as u16 & 0x0F == x % 16) by (bit_vector);

        self.index = 0x50 + 5 * (x as u16 & 0x0F);
    }

    /// Takes the lowest held key into VX, or goes back to wait for one.
    fn get_key(&mut self, vx: RegIdx, keys: &[bool; 16])
        requires
            old(self)@.pc >= 2,
        ensures
            final(self)@ == get_key_spec(old(self)@, vx@, keys@),
    {
        if let Some(key) = first_held_key(keys) {
            self.regs.set(vx, key);
        } else {
            self.pc -= 2;  // do this instruction again
        }
    }

    /// Whether the key whose number is in VX is held.
    fn key_in_reg_held(&self, vx: RegIdx, keys: &[bool; 16]) -> (held: bool)
        ensures
            held == key_held(keys@, self@.regs[vx@] as int),
    {
        let key = self.regs.get(vx) as usize;
        key < 16 && keys[key]
    }

    /// Sets the delay timer.
    fn set_delay(&mut self, value: u8)
        ensures
            final(self)@ == (Machine { delay_timer: value, ..old(self)@ }),
    {
        self.delay_timer = value;
    }

    /// Sets the sound timer.
    fn set_sound(&mut self, value: u8)
        ensures
            final(self)@ == (Machine { sound_timer: value, ..old(self)@ }),
    {
        self.sound_timer = value;
    }

    /// Sets the index register.
    fn set_index(&mut self, value: u16)
        ensures
            final(self)@ == (Machine { index: value, ..old(self)@ }),
    {
        self.index = value;
    }

    /// Clears the display and presents the blank frame.
    fn clear_screen(&mut self)
        ensures
            final(self)@ == (Machine {
                frame: blank_frame(),
                old_frame: blank_frame(),
                ..old(self)@
            }),
    {
        self.display.clear();
    }

    /// Executes `inst`, which was fetched just before: the program counter
    /// is behind it. `keys` says which keys are held, and `random` is the
    /// byte that the instruction uses if it asks for a random one. The
    /// result says whether the frame was presented.
    pub fn execute(&mut self, inst: Instruction, keys: &[bool; 16], random: u8) -> (result: Result<
        bool,
        Error,
    >)
        requires
            inst.wf(),
            2 <= old(self)@.pc <= 0xFFFD,
        ensures
            final(self)@ == execute_spec(old(self)@, inst, keys@, random).machine,
            result == execute_spec(old(self)@, inst, keys@, random).result,
            final(self)@.args == old(self)@.args,
    {
        proof {
            lemma_execute_keeps_args(old(self)@, inst, keys@, random);
        }
        match inst {
            Instruction::ClearScreen => {
                self.clear_screen();
                return Ok(true);
            },
            Instruction::Jump(nnn) => self.jump(nnn),
            Instruction::SetIm(vx, nn) => self.set_reg(vx, nn),
            Instruction::AddIm(vx, nn) => {
                let sum = self.reg(vx).wrapping_add(nn);
                self.set_reg(vx, sum);
            },
            Instruction::SetIndex(nnn) => self.set_index(nnn),
            Instruction::Draw(vx, vy, n) => {
                return match self.draw(vx, vy, n) {
                    Ok(()) => Ok(true),
                    Err(e) => Err(e),
                };
            },
            Instruction::Call(addr) => self.call(addr),
            Instruction::Return => {
                return match self.ret() {
                    Ok(()) => Ok(false),
                    Err(e) => Err(e),
                };
            },
            Instruction::SkipEqIm(vx, nn) => {
                let cond = self.reg(vx) == nn;
                self.skip_if(cond);
            },
            Instruction::SkipNeIm(vx, nn) => {
                let cond = self.reg(vx) != nn;
                self.skip_if(cond);
            },
            Instruction::SkipEq(vx, vy) => {
                let cond = self.reg(vx) == self.reg(vy);
                self.skip_if(cond);
            },
            Instruction::SkipNe(vx, vy) => {
                let cond = self.reg(vx) != self.reg(vy);
                self.skip_if(cond);
            },
            Instruction::SetReg(vx, vy) => {
                let y = self.reg(vy);
                self.set_reg(vx, y);
            },
            Instruction::Or(vx, vy) => {
                let value = self.reg(vx) | self.reg(vy);
                self.set_reg(vx, value);
            },
            Instruction::And(vx, vy) => {
                let value = self.reg(vx) & self.reg(vy);
                self.set_reg(vx, value);
            },
            Instruction::Xor(vx, vy) => {
                let value = self.reg(vx) ^ self.reg(vy);
                self.set_reg(vx, value);
            },
            Instruction::Add(vx, vy) => self.add_regs(vx, vy),
            Instruction::Sub(vx, vy) => {
                let (x, y) = (self.reg(vx), self.reg(vy));
                self.sub_regs(vx, x, y);
            },
            Instruction::SubOpp(vx, vy) => {
                let (x, y) = (self.reg(vx), self.reg(vy));
                self.sub_regs(vx, y, x);
            },
            Instruction::Shr(vx, vy) => self.shift_right(vx, vy),
            Instruction::Shl(vx, vy) => self.shift_left(vx, vy),
            Instruction::JumpV0(nnn) => self.jump_offset(nnn),
            Instruction::RandAnd(vx, nn) => self.set_reg(vx, random & nn),
            Instruction::GetDelay(vx) => {
                let delay = self.delay_timer;
                self.set_reg(vx, delay);
            },
            Instruction::SetDelay(vx) => {
                let x = self.reg(vx);
                self.set_delay(x);
            },
            Instruction::SetSound(vx) => {
                let x = self.reg(vx);
                self.set_sound(x);
            },
            Instruction::AddIndex(vx) => self.add_index(vx),
            Instruction::SetBcd(vx) => {
                return match self.set_bcd(vx) {
                    Ok(()) => Ok(false),
                    Err(e) => Err(e),
                };
            },
            Instruction::RegStore(vx) => {
                return match self.reg_store(vx) {
                    Ok(()) => Ok(false),
                    Err(e) => Err(e),
                };
            },
            Instruction::RegLoad(vx) => {
                return match self.reg_load(vx) {
                    Ok(()) => Ok(false),
                    Err(e) => Err(e),
                };
            },
            Instruction::IndexCharacter(vx) => self.index_character(vx),
            Instruction::GetKey(vx) => self.get_key(vx, keys),
            Instruction::SkipKeyEq(vx) => {
                let held = self.key_in_reg_held(vx, keys);
                self.skip_if(held);
            },
            Instruction::SkipKeyNe(vx) => {
                let held = self.key_in_reg_held(vx, keys);
                self.skip_if(!held);
            },
        }
        Ok(false)
    }

    /// Runs one instruction: fetches and decodes it, draws a random byte
    /// if it asks for one, and executes it. The result says whether the
    /// frame was presented.
    pub fn step(&mut self, keys: &[bool; 16]) -> (result: Result<bool, Error>)
        ensures
            exists|random: u8|
                final(self)@ == (#[trigger] step_spec(old(self)@, keys@, random)).machine && result
                    == step_spec(old(self)@, keys@, random).result,
            final(self)@.args == old(self)@.args,
    {
        let inst = match self.fetch_and_decode() {
            Ok(inst) => inst,
            Err(e) => {
                assert(final(self)@ == step_spec(old(self)@, keys@, 0u8).machine);
                return Err(e);
            },
        };
        let random = match inst {
            Instruction::RandAnd(_, _) => random_byte(),
            _ => 0,
        };
        let result = self.execute(inst, keys, random);
        assert(self@ == step_spec(old(self)@, keys@, random).machine);
        result
    }

    /// Lets `elapsed_ms` milliseconds go by for the timers, and says
    /// whether they were advanced: the caller then counts elapsed time
    /// from now.
    pub fn tick_timers(&mut self, elapsed_ms: u128) -> (ticked: bool)
        requires
            old(self)@.args.timer_period > 0,
        ensures
            final(self)@ == tick_spec(old(self)@, elapsed_ms as int),
            ticked == timers_due(old(self)@, elapsed_ms as int),
            final(self)@.args == old(self)@.args,
    {
        if elapsed_ms >= self.args.timer_period {
            let periods = elapsed_ms / self.args.timer_period;
            let decrement: u8 = if periods > 255 {
                255
            } else {
                periods as u8
            };

            self.delay_timer = self.delay_timer.saturating_sub(decrement);
            self.sound_timer = self.sound_timer.saturating_sub(decrement);

            self.display.update();
            true
        } else {
            false
        }
    }

    /// One turn of the main loop: runs one instruction, then lets
    /// `elapsed_ms` milliseconds go by for the timers, and says what is to
    /// be done outside: paint the frame, restart the clock, sound the tone.
    pub fn cycle(&mut self, keys: &[bool; 16], elapsed_ms: u128) -> (result: Result<Cycle, Error>)
        requires
            old(self)@.args.timer_period > 0,
        ensures
            exists|random: u8|
                final(self)@ == (#[trigger] cycle_spec(
                    old(self)@,
                    keys@,
                    elapsed_ms as int,
                    random,
                )).0 && result == cycle_spec(old(self)@, keys@, elapsed_ms as int, random).1,
            final(self)@.args == old(self)@.args,
    {
        let ghost start = self@;
        let presented = match self.step(keys) {
            Ok(presented) => presented,
            Err(e) => {
                proof {
                    let random = choose|random: u8|
                        self@ == (#[trigger] step_spec(start, keys@, random)).machine && Err::<
                            bool,
                            Error,
                        >(e) == step_spec(start, keys@, random).result;
                    assert(self@ == cycle_spec(start, keys@, elapsed_ms as int, random).0);
                }
                return Err(e);
            },
        };
        let ghost stepped = self@;
        let ticked = self.tick_timers(elapsed_ms);
        let result = Cycle {
            present: presented || ticked,
            timers_ticked: ticked,
            tone: self.sound_timer > 0,
        };
        proof {
            let random = choose|random: u8|
                stepped == (#[trigger] step_spec(start, keys@, random)).machine && Ok::<
                    bool,
                    Error,
                >(presented) == step_spec(start, keys@, random).result;
            assert(self@ == cycle_spec(start, keys@, elapsed_ms as int, random).0);
            assert(Ok::<Cycle, Error>(result) == cycle_spec(
                start,
                keys@,
                elapsed_ms as int,
                random,
            ).1);
        }
        Ok(result)
    }

}

} // verus!
