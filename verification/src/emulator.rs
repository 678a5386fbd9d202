//! The interpreter: the machine's state in its executable form, and the
//! operations that drive it.

use vstd::prelude::*;
use crate::display::{shade, Framebuffer, Sprite};
use crate::fault::Fault;
use crate::keypad::{u8_to_key, Keypad};
use crate::machine::{
    flag, font_sprites, is_outcome, skip_if, spec_call, spec_draw, spec_execute, spec_fetch,
    spec_load_registers, spec_load_rom, spec_load_sprite, spec_return, spec_step, spec_store_bcd,
    spec_update_timer, sprite_rows, wants_random, with_font, with_program, Machine, FLAG,
    FONT_BASE, FONT_SIZE, GLYPH_SIZE, MAX_PROGRAM_SIZE, MEMORY_SIZE, PROGRAM_START, STACK_DEPTH,
    TIMER_PERIOD_MICROS,
};
use crate::opcode::{decode, spec_decode, Opcode};

verus! {

/// A CHIP-8 machine: memory, registers, call stack, screen and delay timer,
/// owned together and changed only through the operations below.
pub struct Emulator {
    /// 4 KiB of memory.
    ram: [u8; 4096],
    /// The general registers `V0` to `VF`.
    registers: [u8; 16],
    /// The index register `I`.
    register_i: u16,
    /// The program counter.
    pc: u16,
    /// The number of return addresses on the call stack.
    sp: u8,
    /// The call stack; the slots below `sp` are in use.
    stack: [u16; 16],
    /// The screen.
    display: Framebuffer,
    /// The delay timer.
    register_dt: u8,
}

impl View for Emulator {
    type V = Machine;

    closed spec fn view(&self) -> Machine {
        Machine {
            memory: self.ram@,
            registers: self.registers@,
            index: self.register_i,
            pc: self.pc,
            stack: self.stack@.take(self.sp as int),
            pixels: self.display@,
            delay_timer: self.register_dt,
        }
    }
}

impl Emulator {
    #[verifier::type_invariant]
    spec fn inv(&self) -> bool {
        self.sp <= STACK_DEPTH
    }

    /// The program counter.
    pub fn pc(&self) -> (pc: u16)
        ensures
            pc == self@.pc,
    {
        self.pc
    }

    /// The number of return addresses on the call stack.
    pub fn stack_pointer(&self) -> (sp: u8)
        ensures
            sp == self@.stack.len(),
            sp <= STACK_DEPTH,
    {
        proof {
            use_type_invariant(self);
        }
        self.sp
    }

    /// Seeds the font glyphs at their place in memory.
    pub fn load_font_sprites(&mut self)
        ensures
            final(self)@ == (Machine { memory: with_font(old(self)@.memory), ..old(self)@ }),
            final(self)@.wf(),
    {
        proof {
            use_type_invariant(&*self);
            self.display.lemma_size();
        }
        let glyphs: [u8; 80] = [
            0xF0, 0x90, 0x90, 0x90, 0xF0,  // 0
            0x20, 0x60, 0x20, 0x20, 0x70,  // 1
            0xF0, 0x10, 0xF0, 0x80, 0xF0,  // 2
            0xF0, 0x10, 0xF0, 0x10, 0xF0,  // 3
            0x90, 0x90, 0xF0, 0x10, 0x10,  // 4
            0xF0, 0x80, 0xF0, 0x10, 0xF0,  // 5
            0xF0, 0x80, 0xF0, 0x90, 0xF0,  // 6
            0xF0, 0x10, 0x20, 0x40, 0x40,  // 7
            0xF0, 0x90, 0xF0, 0x90, 0xF0,  // 8
            0xF0, 0x90, 0xF0, 0x10, 0xF0,  // 9
            0xF0, 0x90, 0xF0, 0x90, 0x90,  // A
            0xE0, 0x90, 0xE0, 0x90, 0xE0,  // B
            0xF0, 0x80, 0x80, 0x80, 0xF0,  // C
            0xE0, 0x90, 0x90, 0x90, 0xE0,  // D
            0xF0, 0x80, 0xF0, 0x80, 0xF0,  // E
            0xF0, 0x80, 0xF0, 0x80, 0x80,  // F
        ];
        assert(glyphs@ =~= font_sprites());
        let mut i: usize = 0;
        while i < FONT_SIZE
            invariant
                i <= 80,
                glyphs@ == font_sprites(),
                self.sp <= STACK_DEPTH,
                self@ == (Machine { memory: self.ram@, ..old(self)@ }),
                forall|a: int|
                    0 <= a < 4096 ==> self.ram@[a] == if FONT_BASE <= a < FONT_BASE + i {
                        font_sprites()[a - FONT_BASE]
                    } else {
                        old(self).ram@[a]
                    },
            decreases 80 - i,
        {
            self.ram[FONT_BASE as usize + i] = glyphs[i];
            i += 1;
        }
        assert(self.ram@ =~= with_font(old(self).ram@));
    }

    /// Loads a program: seeds the font, then copies `rom` byte for byte to
    /// the load address. A program that does not fit is refused and
    /// nothing is written.
    pub fn load_rom(&mut self, rom: &[u8]) -> (result: Result<(), Fault>)
        ensures
            is_outcome(spec_load_rom(old(self)@, rom@), old(self)@, final(self)@, result),
            final(self)@.wf(),
    {
        proof {
            use_type_invariant(&*self);
            self.display.lemma_size();
        }
        let length: usize = rom.len();
        if length > MAX_PROGRAM_SIZE {
            return Err(Fault::ProgramTooLarge { length });
        }
        self.load_font_sprites();
        proof {
            use_type_invariant(&*self);
        }
        let ghost seeded = self.ram@;
        let mut i: usize = 0;
        while i < length
            invariant
                i <= length,
                length == rom@.len(),
                length <= MAX_PROGRAM_SIZE,
                seeded == with_font(old(self).ram@),
                self.sp <= STACK_DEPTH,
                self@ == (Machine { memory: self.ram@, ..old(self)@ }),
                forall|a: int|
                    0 <= a < 4096 ==> self.ram@[a] == if PROGRAM_START <= a < PROGRAM_START + i {
                        rom@[a - PROGRAM_START]
                    } else {
                        seeded[a]
                    },
            decreases length - i,
        {
            self.ram[PROGRAM_START as usize + i] = rom[i];
            i += 1;
        }
        assert(self.ram@ =~= with_program(old(self).ram@, rom@));
        Ok(())
    }

    /// The screen as a row-major sequence of 2048 presentation values, for
    /// whoever shows it.
    pub fn convert_display_to_buffer(&self) -> (buffer: Vec<u32>)
        ensures
            buffer@.len() == 2048,
            forall|i: int| 0 <= i < 2048 ==> #[trigger] buffer@[i] == shade(self@.pixels[i]),
    {
        self.display.to_buffer()
    }

    /// Draws a sprite onto the screen and sets the flag register to 1 if
    /// the draw collided, else to 0.
    pub fn load_sprite(&mut self, sprite: Sprite)
        requires
            sprite.wf(),
        ensures
            final(self)@ == spec_load_sprite(old(self)@, sprite.x, sprite.y, sprite.content@),
            final(self)@.wf(),
    {
        proof {
            use_type_invariant(&*self);
            self.display.lemma_size();
        }
        let collision: bool = self.display.draw(&sprite);
        self.set_flag(collision);
    }

    /// Tells the delay timer how many microseconds have gone by since its
    /// last tick. Where that is a full period, the timer counts down by one
    /// unless it is at zero, and the caller starts measuring anew.
    pub fn update_timer(&mut self, elapsed_micros: u64) -> (ticked: bool)
        ensures
            ticked == (elapsed_micros >= TIMER_PERIOD_MICROS),
            final(self)@ == spec_update_timer(old(self)@, elapsed_micros),
            final(self)@.wf(),
    {
        proof {
            use_type_invariant(&*self);
            self.display.lemma_size();
        }
        if elapsed_micros >= TIMER_PERIOD_MICROS {
            if self.register_dt > 0 {
                self.register_dt -= 1;
            }
            true
        } else {
            false
        }
    }

    /// Reads the instruction word at the program counter.
    pub fn fetch(&self) -> (result: Result<u16, Fault>)
        ensures
            result == spec_fetch(self@),
    {
        let pc: usize = self.pc as usize;
        if pc + 2 > MEMORY_SIZE {
            return Err(Fault::OutOfRange { address: past_the_end(self.pc) });
        }
        let high: u8 = self.ram[pc];
        let low: u8 = self.ram[pc + 1];
        assert(((high as u16) << 8 | low as u16) == high * 256 + low) by (bit_vector);
        Ok((high as u16) << 8 | low as u16)
    }

    /// Carries out one operation. `random` is used by `Cxkk` alone and
    /// `keys` by the two key tests. On a fault the machine is left as it
    /// was.
    pub fn execute(&mut self, op: Opcode, keys: &Keypad, random: u8) -> (result: Result<(), Fault>)
        requires
            op.wf(),
            old(self)@.pc + 2 <= MEMORY_SIZE,
        ensures
            is_outcome(
                spec_execute(old(self)@, op, *keys, random),
                old(self)@,
                final(self)@,
                result,
            ),
            final(self)@.wf(),
    {
        proof {
            use_type_invariant(&*self);
            self.display.lemma_size();
        }
        match op {
            Opcode::Return => {
                return self.return_from_call();
            },
            Opcode::Jump { nnn } => {
                self.pc = nnn;
            },
            Opcode::Call { nnn } => {
                return self.call(nnn);
            },
            Opcode::SkipEq { x, kk } => {
                let equal: bool = self.registers[x as usize] == kk;
                self.advance(equal);
            },
            Opcode::SkipNeq { x, kk } => {
                let differ: bool = self.registers[x as usize] != kk;
                self.advance(differ);
            },
            Opcode::LoadImmediate { x, kk } => {
                self.set_register(x, kk);
                self.advance(false);
            },
            Opcode::AddImmediate { x, kk } => {
                let sum: u8 = self.registers[x as usize].wrapping_add(kk);
                self.set_register(x, sum);
                self.advance(false);
            },
            Opcode::Move { x, y } => {
                let value: u8 = self.registers[y as usize];
                self.set_register(x, value);
                self.advance(false);
            },
            Opcode::And { x, y } => {
                let value: u8 = self.registers[x as usize] & self.registers[y as usize];
                self.set_register(x, value);
                self.advance(false);
            },
            Opcode::Add { x, y } => {
                let left: u8 = self.registers[x as usize];
                let right: u8 = self.registers[y as usize];
                let carry: bool = left as u16 + right as u16 > 0xFF;
                self.set_register(x, left.wrapping_add(right));
                self.set_flag(carry);
                self.advance(false);
            },
            Opcode::Sub { x, y } => {
                let left: u8 = self.registers[x as usize];
                let right: u8 = self.registers[y as usize];
                self.set_register(x, left.wrapping_sub(right));
                self.set_flag(left >= right);
                self.advance(false);
            },
            Opcode::SetIndex { nnn } => {
                self.register_i = nnn;
                self.advance(false);
            },
            Opcode::Random { x, kk } => {
                self.set_register(x, random & kk);
                self.advance(false);
            },
            Opcode::Draw { x, y, n } => {
                return self.draw(x, y, n);
            },
            Opcode::SkipKeyDown { x } => {
                let down: bool = keys.is_key_down(u8_to_key(self.registers[x as usize]));
                self.advance(down);
            },
            Opcode::SkipKeyUp { x } => {
                let down: bool = keys.is_key_down(u8_to_key(self.registers[x as usize]));
                self.advance(!down);
            },
            Opcode::ReadTimer { x } => {
                let timer: u8 = self.register_dt;
                self.set_register(x, timer);
                self.advance(false);
            },
            Opcode::SetTimer { x } => {
                self.register_dt = self.registers[x as usize];
                self.advance(false);
            },
            Opcode::ReadFont { x } => {
                self.register_i = FONT_BASE + self.registers[x as usize] as u16 * GLYPH_SIZE;
                self.advance(false);
            },
            Opcode::StoreBCD { x } => {
                return self.store_bcd(x);
            },
            Opcode::LoadRegisters { x } => {
                return self.load_registers(x);
            },
        }
        Ok(())
    }

    /// `Vx := value`.
    fn set_register(&mut self, x: u8, value: u8)
        requires
            x < 16,
        ensures
            final(self)@ == old(self)@.with_reg(x as int, value),
    {
        proof {
            use_type_invariant(&*self);
        }
        self.registers[x as usize] = value;
    }

    /// `VF := 1` if `set`, else `VF := 0`.
    fn set_flag(&mut self, set: bool)
        ensures
            final(self)@ == old(self)@.with_reg(FLAG as int, flag(set)),
    {
        proof {
            use_type_invariant(&*self);
        }
        self.registers[FLAG] = if set {
            1
        } else {
            0
        };
    }

    /// Moves the program counter on to the next instruction, or past it
    /// where `skip` holds.
    fn advance(&mut self, skip: bool)
        requires
            old(self)@.pc + 2 <= MEMORY_SIZE,
        ensures
            final(self)@ == old(self)@.advanced(skip_if(skip)),
    {
        proof {
            use_type_invariant(&*self);
        }
        if skip {
            self.pc += 4;
        } else {
            self.pc += 2;
        }
    }

    /// `00EE`.
    fn return_from_call(&mut self) -> (result: Result<(), Fault>)
        ensures
            is_outcome(spec_return(old(self)@), old(self)@, final(self)@, result),
    {
        proof {
            use_type_invariant(&*self);
        }
        if self.sp == 0 {
            return Err(Fault::StackUnderflow);
        }
        self.sp -= 1;
        self.pc = self.stack[self.sp as usize];
        assert(self@.stack =~= old(self)@.stack.drop_last());
        Ok(())
    }

    /// `2nnn`.
    fn call(&mut self, nnn: u16) -> (result: Result<(), Fault>)
        requires
            old(self)@.pc + 2 <= MEMORY_SIZE,
        ensures
            is_outcome(spec_call(old(self)@, nnn), old(self)@, final(self)@, result),
    {
        proof {
            use_type_invariant(&*self);
        }
        if self.sp as usize >= STACK_DEPTH {
            return Err(Fault::StackOverflow);
        }
        self.stack[self.sp as usize] = self.pc + 2;
        self.sp += 1;
        self.pc = nnn;
        assert(self@.stack =~= old(self)@.stack.push((old(self).pc + 2) as u16));
        Ok(())
    }

    /// `Dxyn`.
    fn draw(&mut self, x: u8, y: u8, n: u8) -> (result: Result<(), Fault>)
        requires
            x < 16,
            y < 16,
            n < 16,
            old(self)@.pc + 2 <= MEMORY_SIZE,
        ensures
            is_outcome(spec_draw(old(self)@, x, y, n), old(self)@, final(self)@, result),
    {
        let start: usize = self.register_i as usize;
        let height: usize = n as usize;
        if height > 0 && start + height > MEMORY_SIZE {
            return Err(Fault::OutOfRange { address: past_the_end(self.register_i) });
        }
        let mut content: Vec<u8> = Vec::new();
        let mut row: usize = 0;
        while row < height
            invariant
                row <= height,
                height <= 15,
                height > 0 ==> start + height <= MEMORY_SIZE,
                content@ == sprite_rows(self.ram@, start as int, row as int),
            decreases height - row,
        {
            content.push(self.ram[start + row]);
            row += 1;
            assert(content@ =~= sprite_rows(self.ram@, start as int, row as int));
        }
        let sprite = Sprite { x: self.registers[x as usize], y: self.registers[y as usize], content };
        self.load_sprite(sprite);
        proof {
            use_type_invariant(&*self);
        }
        self.pc += 2;
        Ok(())
    }

    /// `Fx33`.
    fn store_bcd(&mut self, x: u8) -> (result: Result<(), Fault>)
        requires
            x < 16,
            old(self)@.pc + 2 <= MEMORY_SIZE,
        ensures
            is_outcome(spec_store_bcd(old(self)@, x), old(self)@, final(self)@, result),
    {
        proof {
            use_type_invariant(&*self);
        }
        let start: usize = self.register_i as usize;
        if start + 3 > MEMORY_SIZE {
            return Err(Fault::OutOfRange { address: past_the_end(self.register_i) });
        }
        let number: u8 = self.registers[x as usize];
        self.ram[start] = number / 100;
        self.ram[start + 1] = (number / 10) % 10;
        self.ram[start + 2] = number % 10;
        self.pc += 2;
        Ok(())
    }

    /// `Fx65`.
    fn load_registers(&mut self, x: u8) -> (result: Result<(), Fault>)
        requires
            x < 16,
            old(self)@.pc + 2 <= MEMORY_SIZE,
        ensures
            is_outcome(spec_load_registers(old(self)@, x), old(self)@, final(self)@, result),
    {
        proof {
            use_type_invariant(&*self);
        }
        let start: usize = self.register_i as usize;
        let count: usize = x as usize + 1;
        if start + count > MEMORY_SIZE {
            return Err(Fault::OutOfRange { address: past_the_end(self.register_i) });
        }
        let mut i: usize = 0;
        while i < count
            invariant
                i <= count <= 16,
                start == self.register_i,
                start + count <= MEMORY_SIZE,
                self.sp <= STACK_DEPTH,
                self@ == (Machine { registers: self.registers@, ..old(self)@ }),
                forall|j: int|
                    0 <= j < 16 ==> self.registers@[j] == if j < i {
                        self.ram@[start + j]
                    } else {
                        old(self).registers@[j]
                    },
            decreases count - i,
        {
            self.registers[i] = self.ram[start + i];
            i += 1;
        }
        self.pc += 2;
        assert(self@.registers =~= spec_load_registers(old(self)@, x)->Ok_0.registers);
        Ok(())
    }

    /// One cycle with the given random byte: fetch, decode, execute.
    pub fn step_with(&mut self, keys: &Keypad, random: u8) -> (result: Result<(), Fault>)
        ensures
            is_outcome(spec_step(old(self)@, *keys, random), old(self)@, final(self)@, result),
            final(self)@.wf(),
    {
        proof {
            use_type_invariant(&*self);
            self.display.lemma_size();
        }
        let op: Opcode = match self.fetch_opcode() {
            Ok(op) => op,
            Err(fault) => {
                return Err(fault);
            },
        };
        self.execute(op, keys, random)
    }

    /// One cycle: fetch, decode, execute. A `Cxkk` takes its byte from the
    /// random source, so of such a cycle the contract says only that it
    /// went as `step_with` goes for some byte; every other cycle goes as
    /// `step_with` goes for any byte.
    pub fn step(&mut self, keys: &Keypad) -> (result: Result<(), Fault>)
        ensures
            exists|random: u8|
                is_outcome(
                    #[trigger] spec_step(old(self)@, *keys, random),
                    old(self)@,
                    final(self)@,
                    result,
                ),
            !wants_random(old(self)@) ==> is_outcome(
                spec_step(old(self)@, *keys, 0),
                old(self)@,
                final(self)@,
                result,
            ),
            final(self)@.wf(),
    {
        proof {
            use_type_invariant(&*self);
            self.display.lemma_size();
        }
        let op: Opcode = match self.fetch_opcode() {
            Ok(op) => op,
            Err(fault) => {
                assert(is_outcome(spec_step(old(self)@, *keys, 0), old(self)@, self@, Err(fault)));
                return Err(fault);
            },
        };
        let random: u8 = match op {
            Opcode::Random { .. } => random_byte(),
            _ => 0,
        };
        let result = self.execute(op, keys, random);
        assert(is_outcome(spec_step(old(self)@, *keys, random), old(self)@, self@, result));
        result
    }

    /// The operation at the program counter.
    fn fetch_opcode(&self) -> (result: Result<Opcode, Fault>)
        ensures
            match result {
                Ok(op) => {
                    &&& spec_fetch(self@) matches Ok(word)
                    &&& spec_decode(word) == Some(op)
                    &&& op.wf()
                    &&& self@.pc + 2 <= MEMORY_SIZE
                },
                Err(fault) => forall|keys: Keypad, random: u8|
                    #[trigger] spec_step(self@, keys, random) == Err::<Machine, Fault>(fault),
            },
    {
        let word: u16 = match self.fetch() {
            Ok(word) => word,
            Err(fault) => {
                return Err(fault);
            },
        };
        match decode(word) {
            Some(op) => Ok(op),
            None => Err(
                Fault::Unimplemented {
                    address: self.pc,
                    high: self.ram[self.pc as usize],
                    low: self.ram[self.pc as usize + 1],
                },
            ),
        }
    }

    /// The general registers `V0` to `VF`.
    pub fn registers(&self) -> (registers: &[u8; 16])
        ensures
            registers@ == self@.registers,
    {
        &self.registers
    }

    /// The memory.
    pub fn memory(&self) -> (memory: &[u8; 4096])
        ensures
            memory@ == self@.memory,
    {
        &self.ram
    }

    /// The index register `I`.
    pub fn index_register(&self) -> (index: u16)
        ensures
            index == self@.index,
    {
        self.register_i
    }

    /// The delay timer.
    pub fn delay_timer(&self) -> (timer: u8)
        ensures
            timer == self@.delay_timer,
    {
        self.register_dt
    }

    /// The screen.
    pub fn display(&self) -> (screen: &Framebuffer)
        ensures
            screen@ == self@.pixels,
    {
        &self.display
    }
}

impl Default for Emulator {
    /// The machine at power-on.
    fn default() -> (emulator: Emulator)
        ensures
            emulator@ == Machine::initial(),
    {
        let emulator = Emulator {
            ram: [0; 4096],
            registers: [0; 16],
            register_i: 0,
            pc: PROGRAM_START,
            sp: 0,
            stack: [0; 16],
            display: Framebuffer::new(),
            register_dt: 0,
        };
        assert(emulator@.memory =~= Machine::initial().memory);
        assert(emulator@.registers =~= Machine::initial().registers);
        assert(emulator@.stack =~= Machine::initial().stack);
        emulator
    }
}

/// The lowest address past the end of memory that an access starting at
/// `start` and reaching past the end touches.
fn past_the_end(start: u16) -> (address: u16)
    ensures
        address == if start >= MEMORY_SIZE {
            start
        } else {
            MEMORY_SIZE as u16
        },
{
    if start as usize >= MEMORY_SIZE {
        start
    } else {
        MEMORY_SIZE as u16
    }
}

/// One byte from the thread-local generator of the `rand` crate:
/// `rand::thread_rng()` and `Rng::gen` at type `u8`. The generator is seeded
/// by the operating system, so nothing is claimed of the byte, and two
/// calls need not agree. The generator panics where the operating system
/// gives it no seed.
#[verifier::external_body]
fn random_byte() -> (byte: u8) {
    rand::Rng::gen(&mut rand::thread_rng())
}

} // verus!
