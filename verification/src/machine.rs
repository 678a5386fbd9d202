//! The mathematical model of the machine: its state as plain sequences and
//! integers, and what one instruction does to it.

use vstd::prelude::*;
use crate::display::{collides, drawn};
use crate::fault::Fault;
use crate::keypad::{spec_u8_to_key, Keypad};
use crate::opcode::{spec_decode, Opcode};

verus! {

/// Bytes of memory.
pub const MEMORY_SIZE: usize = 4096;

/// Where the font glyphs start.
pub const FONT_BASE: u16 = 0x050;

/// Bytes in a font glyph.
pub const GLYPH_SIZE: u16 = 5;

/// Bytes in the font table: sixteen glyphs.
pub const FONT_SIZE: usize = 80;

/// Where a program is loaded and where execution starts.
pub const PROGRAM_START: u16 = 0x200;

/// The longest program that fits between the load address and the end of
/// memory.
pub const MAX_PROGRAM_SIZE: usize = 0xE00;

/// Return addresses that the call stack can hold.
pub const STACK_DEPTH: usize = 16;

/// The register that arithmetic and drawing use as their flag.
pub const FLAG: usize = 0xF;

/// Microseconds in one period of the 60 Hz delay timer.
pub const TIMER_PERIOD_MICROS: u64 = 16667;

/// The state of the machine.
pub struct Machine {
    /// The 4096 bytes of memory.
    pub memory: Seq<u8>,
    /// The sixteen general registers `V0..VF`.
    pub registers: Seq<u8>,
    /// The index register `I`.
    pub index: u16,
    /// The program counter.
    pub pc: u16,
    /// The return addresses of the calls in progress, the latest last.
    pub stack: Seq<u16>,
    /// The 2048 pixels of the screen, row by row.
    pub pixels: Seq<bool>,
    /// The delay timer.
    pub delay_timer: u8,
}

impl Machine {
    /// Every component has its size, and the call stack is within its depth.
    pub open spec fn wf(self) -> bool {
        &&& self.memory.len() == MEMORY_SIZE
        &&& self.registers.len() == 16
        &&& self.stack.len() <= STACK_DEPTH
        &&& self.pixels.len() == 2048
    }

    /// The machine at power-on: everything zero, execution about to start
    /// at the load address.
    pub open spec fn initial() -> Machine {
        Machine {
            memory: Seq::new(4096, |i: int| 0u8),
            registers: Seq::new(16, |i: int| 0u8),
            index: 0,
            pc: PROGRAM_START,
            stack: Seq::empty(),
            pixels: Seq::new(2048, |i: int| false),
            delay_timer: 0,
        }
    }

    /// The value of register `Vx`.
    pub open spec fn reg(self, x: u8) -> u8 {
        self.registers[x as int]
    }

    /// This state with `Vx` set to `value`.
    pub open spec fn with_reg(self, x: int, value: u8) -> Machine {
        Machine { registers: self.registers.update(x, value), ..self }
    }

    /// This state with the program counter moved on by `by` bytes.
    pub open spec fn advanced(self, by: int) -> Machine {
        Machine { pc: (self.pc + by) as u16, ..self }
    }
}

/// The sixteen font glyphs, five bytes each, for the digits `0` to `F`.
pub open spec fn font_sprites() -> Seq<u8> {
    seq![
        0xF0u8, 0x90, 0x90, 0x90, 0xF0,
        0x20, 0x60, 0x20, 0x20, 0x70,
        0xF0, 0x10, 0xF0, 0x80, 0xF0,
        0xF0, 0x10, 0xF0, 0x10, 0xF0,
        0x90, 0x90, 0xF0, 0x10, 0x10,
        0xF0, 0x80, 0xF0, 0x10, 0xF0,
        0xF0, 0x80, 0xF0, 0x90, 0xF0,
        0xF0, 0x10, 0x20, 0x40, 0x40,
        0xF0, 0x90, 0xF0, 0x90, 0xF0,
        0xF0, 0x90, 0xF0, 0x10, 0xF0,
        0xF0, 0x90, 0xF0, 0x90, 0x90,
        0xE0, 0x90, 0xE0, 0x90, 0xE0,
        0xF0, 0x80, 0x80, 0x80, 0xF0,
        0xE0, 0x90, 0x90, 0x90, 0xE0,
        0xF0, 0x80, 0xF0, 0x80, 0xF0,
        0xF0, 0x80, 0xF0, 0x80, 0x80,
    ]
}

/// Memory with the font table written at its place.
pub open spec fn with_font(memory: Seq<u8>) -> Seq<u8> {
    Seq::new(
        4096,
        |a: int|
            if FONT_BASE <= a < FONT_BASE + FONT_SIZE {
                font_sprites()[a - FONT_BASE]
            } else {
                memory[a]
            },
    )
}

/// Memory with the font table at its place and `program` copied byte for
/// byte to the load address.
pub open spec fn with_program(memory: Seq<u8>, program: Seq<u8>) -> Seq<u8> {
    Seq::new(
        4096,
        |a: int|
            if PROGRAM_START <= a < PROGRAM_START + program.len() {
                program[a - PROGRAM_START]
            } else {
                with_font(memory)[a]
            },
    )
}

/// What loading `program` does: it is refused where it does not fit, and
/// else memory takes the font and the program and nothing else changes.
pub open spec fn spec_load_rom(m: Machine, program: Seq<u8>) -> Result<Machine, Fault> {
    if program.len() > MAX_PROGRAM_SIZE {
        Err(Fault::ProgramTooLarge { length: program.len() as usize })
    } else {
        Ok(Machine { memory: with_program(m.memory, program), ..m })
    }
}

/// The lowest address past the end of memory among the `count` addresses
/// from `start` on, if there is one.
pub open spec fn first_out_of_range(start: int, count: int) -> Option<u16> {
    if count > 0 && start + count > MEMORY_SIZE {
        Some(
            if start >= MEMORY_SIZE {
                start as u16
            } else {
                MEMORY_SIZE as u16
            },
        )
    } else {
        None
    }
}

/// The instruction word at the program counter: two bytes, the high one
/// first.
pub open spec fn spec_fetch(m: Machine) -> Result<u16, Fault> {
    match first_out_of_range(m.pc as int, 2) {
        Some(address) => Err(Fault::OutOfRange { address }),
        None => Ok((m.memory[m.pc as int] * 256 + m.memory[m.pc + 1]) as u16),
    }
}

/// The flag value for a condition.
pub open spec fn flag(set: bool) -> u8 {
    if set {
        1
    } else {
        0
    }
}

/// The three decimal digits of a byte: hundreds, tens, units.
pub open spec fn bcd(value: u8) -> (u8, u8, u8) {
    (value / 100, value / 10 % 10, value % 10)
}

/// The machine after the delay timer has seen `elapsed_micros` microseconds
/// go by since its last tick: one period or more counts the timer down by
/// one, unless it is at zero.
pub open spec fn spec_update_timer(m: Machine, elapsed_micros: u64) -> Machine {
    if elapsed_micros >= TIMER_PERIOD_MICROS && m.delay_timer > 0 {
        Machine { delay_timer: (m.delay_timer - 1) as u8, ..m }
    } else {
        m
    }
}

/// The machine after a sprite is drawn: the pixels are composited and the
/// flag register says whether the draw collided.
pub open spec fn spec_load_sprite(m: Machine, x: u8, y: u8, rows: Seq<u8>) -> Machine {
    Machine {
        pixels: drawn(m.pixels, x as int, y as int, rows),
        registers: m.registers.update(
            FLAG as int,
            flag(collides(m.pixels, x as int, y as int, rows)),
        ),
        ..m
    }
}

/// The `n` bytes of memory from `index` on: the rows of a sprite.
pub open spec fn sprite_rows(memory: Seq<u8>, index: int, n: int) -> Seq<u8> {
    Seq::new(n as nat, |i: int| memory[index + i])
}

/// `00EE`: the latest return address leaves the call stack and becomes the
/// program counter; with an empty stack the machine faults.
pub open spec fn spec_return(m: Machine) -> Result<Machine, Fault> {
    if m.stack.len() == 0 {
        Err(Fault::StackUnderflow)
    } else {
        Ok(Machine { pc: m.stack.last(), stack: m.stack.drop_last(), ..m })
    }
}

/// `2nnn`: the address of the next instruction goes onto the call stack
/// and execution continues at `nnn`; with a full stack the machine faults.
pub open spec fn spec_call(m: Machine, nnn: u16) -> Result<Machine, Fault> {
    if m.stack.len() >= STACK_DEPTH {
        Err(Fault::StackOverflow)
    } else {
        Ok(Machine { pc: nnn, stack: m.stack.push((m.pc + 2) as u16), ..m })
    }
}

/// `Dxyn`: the `n` bytes at `I` are drawn as a sprite at `(Vx, Vy)`.
pub open spec fn spec_draw(m: Machine, x: u8, y: u8, n: u8) -> Result<Machine, Fault> {
    match first_out_of_range(m.index as int, n as int) {
        Some(address) => Err(Fault::OutOfRange { address }),
        None => Ok(
            spec_load_sprite(
                m,
                m.reg(x),
                m.reg(y),
                sprite_rows(m.memory, m.index as int, n as int),
            ).advanced(2),
        ),
    }
}

/// `Fx33`: the decimal digits of `Vx` go to `I`, `I+1` and `I+2`.
pub open spec fn spec_store_bcd(m: Machine, x: u8) -> Result<Machine, Fault> {
    match first_out_of_range(m.index as int, 3) {
        Some(address) => Err(Fault::OutOfRange { address }),
        None => {
            let (hundreds, tens, units) = bcd(m.reg(x));
            Ok(
                Machine {
                    memory: m.memory.update(m.index as int, hundreds).update(
                        m.index + 1,
                        tens,
                    ).update(m.index + 2, units),
                    ..m
                }.advanced(2),
            )
        },
    }
}

/// `Fx65`: the registers `V0` to `Vx` take the bytes at `I`, `I+1`, ...
pub open spec fn spec_load_registers(m: Machine, x: u8) -> Result<Machine, Fault> {
    match first_out_of_range(m.index as int, x + 1) {
        Some(address) => Err(Fault::OutOfRange { address }),
        None => Ok(
            Machine {
                registers: Seq::new(
                    16,
                    |i: int|
                        if i <= x {
                            m.memory[m.index + i]
                        } else {
                            m.registers[i]
                        },
                ),
                ..m
            }.advanced(2),
        ),
    }
}

/// The bytes that the program counter moves on by after a test: four to
/// skip the next instruction, two to go on with it.
pub open spec fn skip_if(condition: bool) -> int {
    if condition {
        4
    } else {
        2
    }
}

/// What one operation does to the machine. `keys` is the state of the pad
/// and `random` the byte that the random source gave; an operation that
/// cannot be carried out gives the fault instead of a state.
pub open spec fn spec_execute(m: Machine, op: Opcode, keys: Keypad, random: u8) -> Result<
    Machine,
    Fault,
> {
    match op {
        Opcode::Return => spec_return(m),
        Opcode::Jump { nnn } => Ok(Machine { pc: nnn, ..m }),
        Opcode::Call { nnn } => spec_call(m, nnn),
        Opcode::SkipEq { x, kk } => Ok(m.advanced(skip_if(m.reg(x) == kk))),
        Opcode::SkipNeq { x, kk } => Ok(m.advanced(skip_if(m.reg(x) != kk))),
        Opcode::LoadImmediate { x, kk } => Ok(m.with_reg(x as int, kk).advanced(2)),
        Opcode::AddImmediate { x, kk } => Ok(
            m.with_reg(x as int, ((m.reg(x) + kk) % 256) as u8).advanced(2),
        ),
        Opcode::Move { x, y } => Ok(m.with_reg(x as int, m.reg(y)).advanced(2)),
        Opcode::And { x, y } => Ok(m.with_reg(x as int, m.reg(x) & m.reg(y)).advanced(2)),
        Opcode::Add { x, y } => Ok(
            m.with_reg(x as int, ((m.reg(x) + m.reg(y)) % 256) as u8).with_reg(
                FLAG as int,
                flag(m.reg(x) + m.reg(y) > 255),
            ).advanced(2),
        ),
        Opcode::Sub { x, y } => Ok(
            m.with_reg(x as int, ((m.reg(x) - m.reg(y)) % 256) as u8).with_reg(
                FLAG as int,
                flag(m.reg(x) >= m.reg(y)),
            ).advanced(2),
        ),
        Opcode::SetIndex { nnn } => Ok(Machine { index: nnn, ..m }.advanced(2)),
        Opcode::Random { x, kk } => Ok(m.with_reg(x as int, random & kk).advanced(2)),
        Opcode::Draw { x, y, n } => spec_draw(m, x, y, n),
        Opcode::SkipKeyDown { x } => Ok(
            m.advanced(skip_if(keys.is_down(spec_u8_to_key(m.reg(x))))),
        ),
        Opcode::SkipKeyUp { x } => Ok(m.advanced(skip_if(!keys.is_down(spec_u8_to_key(m.reg(x)))))),
        Opcode::ReadTimer { x } => Ok(m.with_reg(x as int, m.delay_timer).advanced(2)),
        Opcode::SetTimer { x } => Ok(Machine { delay_timer: m.reg(x), ..m }.advanced(2)),
        Opcode::ReadFont { x } => Ok(
            Machine { index: (FONT_BASE + m.reg(x) * GLYPH_SIZE) as u16, ..m }.advanced(2),
        ),
        Opcode::StoreBCD { x } => spec_store_bcd(m, x),
        Opcode::LoadRegisters { x } => spec_load_registers(m, x),
    }
}

/// What one cycle does: fetch the word at the program counter, decode it,
/// carry the operation out. A word that encodes no operation is a fault
/// that names its address and its two bytes.
pub open spec fn spec_step(m: Machine, keys: Keypad, random: u8) -> Result<Machine, Fault> {
    match spec_fetch(m) {
        Err(fault) => Err(fault),
        Ok(word) => match spec_decode(word) {
            None => Err(
                Fault::Unimplemented {
                    address: m.pc,
                    high: m.memory[m.pc as int],
                    low: m.memory[m.pc + 1],
                },
            ),
            Some(op) => spec_execute(m, op, keys, random),
        },
    }
}

/// Whether an operation that was asked of the machine in state `before`
/// ended as `expected` says: on success in the expected state, on a fault
/// with that fault and the state untouched.
pub open spec fn is_outcome(
    expected: Result<Machine, Fault>,
    before: Machine,
    after: Machine,
    result: Result<(), Fault>,
) -> bool {
    match expected {
        Ok(state) => result is Ok && after == state,
        Err(fault) => result == Err::<(), Fault>(fault) && after == before,
    }
}

/// Whether the next cycle consumes a random byte: whether the word at the
/// program counter is a `Cxkk`.
pub open spec fn wants_random(m: Machine) -> bool {
    spec_fetch(m) matches Ok(word) && spec_decode(word) matches Some(Opcode::Random { .. })
}

/// A state that `6xkk` is carried out on has `kk` in `Vx` afterwards, for
/// every register and every byte; the other registers keep their values
/// and execution goes on with the next instruction.
pub proof fn law_load_immediate_reads_back(m: Machine, x: u8, kk: u8, keys: Keypad, random: u8)
    requires
        m.wf(),
        x < 16,
        m.pc + 2 <= MEMORY_SIZE,
        m.memory[m.pc as int] == 0x60 + x,
        m.memory[m.pc + 1] == kk,
    ensures
        spec_step(m, keys, random) == Ok::<Machine, Fault>(m.with_reg(x as int, kk).advanced(2)),
        m.with_reg(x as int, kk).advanced(2).reg(x) == kk,
        forall|other: u8|
            other < 16 && other != x ==> m.with_reg(x as int, kk).advanced(2).reg(other) == m.reg(
                other,
            ),
{
    let word = ((0x60 + x) * 256 + kk) as u16;
    assert(spec_fetch(m) == Ok::<u16, Fault>(word));
    crate::opcode::law_decode_inverts_encoding(word, Opcode::LoadImmediate { x, kk });
}

/// A call and the return that answers it: whatever ran in between, if it
/// left the call stack as the call made it, the return continues at the
/// instruction after the call, with the call stack as it was before the
/// call.
pub proof fn law_call_return_round_trip(m: Machine, nnn: u16, later: Machine)
    requires
        m.wf(),
        m.pc + 2 <= MEMORY_SIZE,
        m.stack.len() < STACK_DEPTH,
        later.stack == spec_call(m, nnn)->Ok_0.stack,
    ensures
        spec_call(m, nnn) is Ok,
        spec_call(m, nnn)->Ok_0.pc == nnn,
        spec_return(later) is Ok,
        spec_return(later)->Ok_0.pc == m.pc + 2,
        spec_return(later)->Ok_0.stack == m.stack,
        spec_return(later)->Ok_0.stack.len() == m.stack.len(),
{
    assert(m.stack.push((m.pc + 2) as u16).drop_last() =~= m.stack);
}

/// No operation takes a well-formed machine to one that is not: memory,
/// registers and screen keep their sizes, and the call stack never holds
/// more than sixteen return addresses.
pub proof fn law_execute_keeps_wf(m: Machine, op: Opcode, keys: Keypad, random: u8)
    requires
        m.wf(),
        op.wf(),
    ensures
        spec_execute(m, op, keys, random) matches Ok(after) ==> after.wf(),
{
}

/// No cycle takes a well-formed machine to one that is not.
pub proof fn law_step_keeps_wf(m: Machine, keys: Keypad, random: u8)
    requires
        m.wf(),
    ensures
        spec_step(m, keys, random) matches Ok(after) ==> after.wf(),
{
    if let Ok(word) = spec_fetch(m) {
        if let Some(op) = spec_decode(word) {
            crate::opcode::law_decode_inverts_encoding(word, op);
            law_execute_keeps_wf(m, op, keys, random);
        }
    }
}

/// The random byte matters to `Cxkk` and to nothing else: a cycle that
/// does not want it goes the same way whatever the byte is.
pub proof fn law_random_byte_is_for_random_only(m: Machine, keys: Keypad, one: u8, other: u8)
    requires
        !wants_random(m),
    ensures
        spec_step(m, keys, one) == spec_step(m, keys, other),
{
}

/// The key pad matters to the two key tests and to nothing else.
pub proof fn law_keys_are_for_key_tests_only(
    m: Machine,
    op: Opcode,
    one: Keypad,
    other: Keypad,
    random: u8,
)
    requires
        !(op is SkipKeyDown),
        !(op is SkipKeyUp),
    ensures
        spec_execute(m, op, one, random) == spec_execute(m, op, other, random),
{
}

/// The three digits that `Fx33` stores are decimal digits, and they spell
/// the value: hundreds, tens, units.
pub proof fn law_bcd_spells_the_value(value: u8)
    ensures
        bcd(value).0 < 10,
        bcd(value).1 < 10,
        bcd(value).2 < 10,
        100 * bcd(value).0 + 10 * bcd(value).1 + bcd(value).2 == value,
{
}

/// `7xkk` adds modulo 256 and has no flag: every register but `Vx` keeps its
/// value, the flag register too.
pub proof fn law_add_immediate_wraps(m: Machine, x: u8, kk: u8, keys: Keypad, random: u8)
    requires
        m.wf(),
        x < 16,
    ensures
        spec_execute(m, Opcode::AddImmediate { x, kk }, keys, random) is Ok,
        spec_execute(m, Opcode::AddImmediate { x, kk }, keys, random)->Ok_0.reg(x) == (m.reg(x)
            + kk) % 256,
        forall|other: u8|
            other < 16 && other != x ==> spec_execute(
                m,
                Opcode::AddImmediate { x, kk },
                keys,
                random,
            )->Ok_0.reg(other) == m.reg(other),
{
}

/// An addition sets the flag exactly when the sum does not fit a byte, and
/// a subtraction exactly when nothing is borrowed; either way `Vx` holds
/// the result reduced to a byte, unless `x` names the flag register, which
/// then holds the flag.
pub proof fn law_flag_is_written_last(m: Machine, x: u8, y: u8, keys: Keypad, random: u8)
    requires
        m.wf(),
        x < 16,
        y < 16,
    ensures
        spec_execute(m, Opcode::Add { x, y }, keys, random)->Ok_0.reg(FLAG as u8) == flag(
            m.reg(x) + m.reg(y) > 255,
        ),
        spec_execute(m, Opcode::Sub { x, y }, keys, random)->Ok_0.reg(FLAG as u8) == flag(
            m.reg(x) >= m.reg(y),
        ),
        x != FLAG ==> spec_execute(m, Opcode::Add { x, y }, keys, random)->Ok_0.reg(x) == (m.reg(x)
            + m.reg(y)) % 256,
        x != FLAG ==> spec_execute(m, Opcode::Sub { x, y }, keys, random)->Ok_0.reg(x) == (m.reg(x)
            - m.reg(y)) % 256,
{
}

} // verus!
