//! The machine as a mathematical value, and what each instruction does to it.
//!
//! Every contract of the interpreter is stated over [`Machine`]: the
//! interpreter's view is a `Machine`, and each operation's result is one of
//! the functions below applied to the view before it.
use vstd::prelude::*;
use crate::display::{blank, blit, collides, grid_wf};
use crate::font::font_table;
use crate::opcode::{decode, word, Instruction};

verus! {

/// Bytes of memory.
pub const MEMORY_SIZE: usize = 4096;

/// Where a program is loaded and where execution starts.
pub const PROGRAM_START: usize = 0x200;

/// The whole state of the machine.
#[verifier::ext_equal]
pub struct Machine {
    /// 4096 bytes.
    pub memory: Seq<u8>,
    /// The registers `V0` to `VF`. `VF` is also where instructions leave
    /// their carry, borrow and collision flags.
    pub registers: Seq<u8>,
    /// Which of the 16 keys are held down.
    pub keys: Seq<bool>,
    /// 32 rows of 64 cells.
    pub display: Seq<Seq<bool>>,
    /// Return addresses, the most recent last.
    pub stack: Seq<u16>,
    /// The address of the next instruction.
    pub pc: int,
    /// The address register, sixteen bits wide.
    pub index: int,
    pub delay_timer: u8,
    pub sound_timer: u8,
}

/// The lowest key that is held down is `key`.
pub open spec fn is_lowest_pressed(keys: Seq<bool>, key: int) -> bool {
    &&& 0 <= key < keys.len()
    &&& keys[key]
    &&& forall|j: int| 0 <= j < key ==> !keys[j]
}

/// Some key is held down.
pub open spec fn any_pressed(keys: Seq<bool>) -> bool {
    exists|key: int| 0 <= key < keys.len() && keys[key]
}

/// The lowest key that is held down, where one is.
pub open spec fn lowest_pressed(keys: Seq<bool>) -> int {
    choose|key: int| is_lowest_pressed(keys, key)
}

impl Machine {
    /// The sizes that every machine has.
    pub open spec fn wf(self) -> bool {
        &&& self.memory.len() == 4096
        &&& self.registers.len() == 16
        &&& self.keys.len() == 16
        &&& grid_wf(self.display)
        &&& 0 <= self.pc
        &&& 0 <= self.index < 0x1_0000
    }

    /// The machine as it is made: everything zero, off and empty, and the
    /// program counter at the start of program memory.
    pub open spec fn initial() -> Machine {
        Machine {
            memory: Seq::new(4096, |a: int| 0u8),
            registers: Seq::new(16, |r: int| 0u8),
            keys: Seq::new(16, |k: int| false),
            display: blank(),
            stack: Seq::empty(),
            pc: 0x200,
            index: 0,
            delay_timer: 0,
            sound_timer: 0,
        }
    }

    /// The font written at the bottom of memory, all else as it was.
    pub open spec fn with_font(self) -> Machine {
        Machine {
            memory: Seq::new(
                4096,
                |a: int| if 0 <= a < 80 { font_table()[a] } else { self.memory[a] },
            ),
            ..self
        }
    }

    /// How many bytes of an image are loaded: all of it, or as much as fits
    /// between the start of program memory and the end of memory.
    pub open spec fn loaded_len(image: Seq<u8>) -> int {
        if image.len() <= 4096 - 0x200 {
            image.len() as int
        } else {
            4096 - 0x200
        }
    }

    /// A program image copied to the start of program memory, all else as it
    /// was.
    pub open spec fn with_program(self, image: Seq<u8>) -> Machine {
        Machine {
            memory: Seq::new(
                4096,
                |a: int|
                    if 0x200 <= a < 0x200 + Self::loaded_len(image) {
                        image[a - 0x200]
                    } else {
                        self.memory[a]
                    },
            ),
            ..self
        }
    }

    /// One tick of the timers: each goes down by one unless it is zero.
    pub open spec fn tick(self) -> Machine {
        Machine {
            delay_timer: if self.delay_timer > 0 {
                (self.delay_timer - 1) as u8
            } else {
                0
            },
            sound_timer: if self.sound_timer > 0 {
                (self.sound_timer - 1) as u8
            } else {
                0
            },
            ..self
        }
    }

    /// Whether a tone is due: the sound timer has not run out.
    pub open spec fn tone_due(self) -> bool {
        self.sound_timer > 0
    }

    /// One key set down or up.
    pub open spec fn with_key(self, key: int, down: bool) -> Machine {
        Machine { keys: self.keys.update(key, down), ..self }
    }

    /// One register given a value.
    pub open spec fn with_register(self, x: int, value: u8) -> Machine {
        Machine { registers: self.registers.update(x, value), ..self }
    }

    /// The program counter moved forward.
    pub open spec fn advance(self, by: int) -> Machine {
        Machine { pc: self.pc + by, ..self }
    }

    /// The program counter moved past this instruction, and past the next one
    /// too where the condition holds.
    pub open spec fn skip_if(self, condition: bool) -> Machine {
        self.advance(if condition { 4 } else { 2 })
    }

    /// `00E0`: every cell off.
    pub open spec fn clear_screen(self) -> Machine {
        Machine { display: blank(), ..self }.advance(2)
    }

    /// `00EE`: the most recent return address taken off the stack into the
    /// program counter, where there is one; then the program counter moves on.
    pub open spec fn subroutine_return(self) -> Machine {
        if self.stack.len() > 0 {
            Machine { pc: self.stack.last() as int, stack: self.stack.drop_last(), ..self }.advance(
                2,
            )
        } else {
            self.advance(2)
        }
    }

    /// `1nnn`.
    pub open spec fn jump(self, addr: int) -> Machine {
        Machine { pc: addr, ..self }
    }

    /// `2nnn`: the address of this instruction goes on the stack, as a
    /// sixteen-bit value.
    pub open spec fn call(self, addr: int) -> Machine {
        Machine { pc: addr, stack: self.stack.push(self.pc as u16), ..self }
    }

    /// `7xnn`: no flag is written.
    pub open spec fn add_immediate(self, x: int, value: u8) -> Machine {
        self.with_register(x, ((self.registers[x] + value) % 256) as u8).advance(2)
    }

    /// `8xy4`: `Vx` takes the sum modulo 256, and `VF` is then 1 where the
    /// sum exceeds 255 and 0 where it does not. Sum and carry are both taken
    /// of the registers before the instruction, `VF` included; where `x` is
    /// `VF` itself, the carry is what it holds at the end.
    pub open spec fn add_registers(self, x: int, y: int) -> Machine {
        let sum = self.registers[x] + self.registers[y];
        let carry: u8 = if sum > 255 {
            1
        } else {
            0
        };
        self.with_register(x, (sum % 256) as u8).with_register(0xF, carry).advance(2)
    }

    /// `8xy5`: `Vx` takes the difference modulo 256, and `VF` is then 0 where
    /// `Vy` exceeds `Vx` (a borrow) and 1 where it does not. Difference and
    /// flag are both taken of the registers before the instruction.
    pub open spec fn subtract_registers(self, x: int, y: int) -> Machine {
        let difference = self.registers[x] - self.registers[y];
        let no_borrow: u8 = if self.registers[y] > self.registers[x] {
            0
        } else {
            1
        };
        self.with_register(x, (difference % 256) as u8).with_register(0xF, no_borrow).advance(2)
    }

    /// `8xy6`: `VF` takes the lowest bit of `Vx`, then `Vx` takes half of `Vy`.
    pub open spec fn shift_right(self, x: int, y: int) -> Machine {
        let flagged = self.with_register(0xF, (self.registers[x] % 2) as u8);
        flagged.with_register(x, (flagged.registers[y] / 2) as u8).advance(2)
    }

    /// `8xy7`: `Vy` has `Vx` taken from it modulo 256, and `VF` is then 0
    /// where `Vx` exceeds `Vy` and 1 where it does not. Difference and flag
    /// are both taken of the registers before the instruction.
    pub open spec fn subtract_into(self, x: int, y: int) -> Machine {
        let difference = self.registers[y] - self.registers[x];
        let no_borrow: u8 = if self.registers[x] > self.registers[y] {
            0
        } else {
            1
        };
        self.with_register(y, (difference % 256) as u8).with_register(0xF, no_borrow).advance(2)
    }

    /// `8xyE`: `VF` takes the highest bit of `Vx`, then `Vx` is doubled, its
    /// highest bit lost.
    pub open spec fn shift_left(self, x: int) -> Machine {
        let flagged = self.with_register(0xF, (self.registers[x] / 128) as u8);
        flagged.with_register(x, ((flagged.registers[x] * 2) % 256) as u8).advance(2)
    }

    /// `Annn`.
    pub open spec fn set_index(self, addr: int) -> Machine {
        Machine { index: addr, ..self }.advance(2)
    }

    /// `Bnnn`.
    pub open spec fn jump_offset(self, addr: int) -> Machine {
        Machine { pc: addr + self.registers[0], ..self }
    }

    /// `Cxnn`, for a given random byte.
    pub open spec fn random_masked(self, x: int, mask: u8, random: u8) -> Machine {
        self.with_register(x, random & mask).advance(2)
    }

    /// The bytes of a sprite of the given height at the address register.
    pub open spec fn sprite(self, rows: int) -> Seq<u8> {
        self.memory.subrange(self.index, self.index + rows)
    }

    /// `Dxyn`: the sprite at the address register is xor-ed onto the display
    /// at column `Vx`, row `Vy`; `VF` is 1 where that turned a lit cell off
    /// and 0 where it did not.
    pub open spec fn draw(self, x: int, y: int, rows: int) -> Machine {
        let sprite = self.sprite(rows);
        let vx = self.registers[x] as int;
        let vy = self.registers[y] as int;
        let hit: u8 = if collides(self.display, sprite, vx, vy) {
            1
        } else {
            0
        };
        Machine {
            display: blit(self.display, sprite, vx, vy),
            registers: self.registers.update(0xF, hit),
            ..self
        }.advance(2)
    }

    /// `Fx0A`: where a key is down, `Vx` takes the lowest such key and the
    /// program counter moves on; where none is, nothing changes, so that the
    /// same instruction runs again.
    pub open spec fn wait_key(self, x: int) -> Machine {
        if any_pressed(self.keys) {
            self.with_register(x, lowest_pressed(self.keys) as u8).advance(2)
        } else {
            self
        }
    }

    /// `Fx1E`: no flag is written; the sum wraps at sixteen bits.
    pub open spec fn add_index(self, x: int) -> Machine {
        Machine { index: (self.index + self.registers[x]) % 0x1_0000, ..self }.advance(2)
    }

    /// `Fx29`: the address of the glyph for the digit in `Vx`.
    pub open spec fn glyph(self, x: int) -> Machine {
        Machine { index: 5 * self.registers[x], ..self }.advance(2)
    }

    /// `Fx33`: the hundreds, tens and ones of `Vx` at the address register
    /// and the two bytes after it.
    pub open spec fn store_decimal(self, x: int) -> Machine {
        let value = self.registers[x];
        Machine {
            memory: self.memory.update(self.index, (value / 100) as u8).update(
                self.index + 1,
                ((value / 10) % 10) as u8,
            ).update(self.index + 2, (value % 10) as u8),
            ..self
        }.advance(2)
    }

    /// `Fx55`: `V0` to `Vx` copied to memory at the address register, which
    /// then stands after the last byte written.
    pub open spec fn store_registers(self, x: int) -> Machine {
        Machine {
            memory: Seq::new(
                4096,
                |a: int|
                    if self.index <= a <= self.index + x {
                        self.registers[a - self.index]
                    } else {
                        self.memory[a]
                    },
            ),
            index: self.index + x + 1,
            ..self
        }.advance(2)
    }

    /// `Fx65`: `V0` to `Vx` filled from memory at the address register, which
    /// then stands after the last byte read.
    pub open spec fn load_registers(self, x: int) -> Machine {
        Machine {
            registers: Seq::new(
                16,
                |r: int|
                    if 0 <= r <= x {
                        self.memory[self.index + r]
                    } else {
                        self.registers[r]
                    },
            ),
            index: self.index + x + 1,
            ..self
        }.advance(2)
    }

    /// What an instruction makes of the machine. `random` is the byte that
    /// `Cxnn` uses; no other instruction looks at it.
    pub open spec fn execute(self, instruction: Instruction, random: u8) -> Machine {
        let v = self.registers;
        match instruction {
            Instruction::ClearScreen => self.clear_screen(),
            Instruction::Return => self.subroutine_return(),
            Instruction::Jump { addr } => self.jump(addr),
            Instruction::Call { addr } => self.call(addr),
            Instruction::SkipIfEqual { x, value } => self.skip_if(v[x] == value),
            Instruction::SkipIfNotEqual { x, value } => self.skip_if(v[x] != value),
            Instruction::SkipIfRegistersEqual { x, y } => self.skip_if(v[x] == v[y]),
            Instruction::Load { x, value } => self.with_register(x, value).advance(2),
            Instruction::AddImmediate { x, value } => self.add_immediate(x, value),
            Instruction::Copy { x, y } => self.with_register(x, v[y]).advance(2),
            Instruction::Or { x, y } => self.with_register(x, v[x] | v[y]).advance(2),
            Instruction::And { x, y } => self.with_register(x, v[x] & v[y]).advance(2),
            Instruction::Xor { x, y } => self.with_register(x, v[x] ^ v[y]).advance(2),
            Instruction::Add { x, y } => self.add_registers(x, y),
            Instruction::Subtract { x, y } => self.subtract_registers(x, y),
            Instruction::ShiftRight { x, y } => self.shift_right(x, y),
            Instruction::SubtractInto { x, y } => self.subtract_into(x, y),
            Instruction::ShiftLeft { x } => self.shift_left(x),
            Instruction::SkipIfRegistersDiffer { x, y } => self.skip_if(v[x] != v[y]),
            Instruction::SetIndex { addr } => self.set_index(addr),
            Instruction::JumpOffset { addr } => self.jump_offset(addr),
            Instruction::Random { x, mask } => self.random_masked(x, mask, random),
            Instruction::Draw { x, y, rows } => self.draw(x, y, rows),
            Instruction::SkipIfKeyDown { x } => self.skip_if(self.keys[v[x] as int]),
            Instruction::SkipIfKeyUp { x } => self.skip_if(!self.keys[v[x] as int]),
            Instruction::ReadDelay { x } => self.with_register(x, self.delay_timer).advance(2),
            Instruction::WaitKey { x } => self.wait_key(x),
            Instruction::SetDelay { x } => Machine { delay_timer: v[x], ..self }.advance(2),
            Instruction::SetSound { x } => Machine { sound_timer: v[x], ..self }.advance(2),
            Instruction::AddIndex { x } => self.add_index(x),
            Instruction::Glyph { x } => self.glyph(x),
            Instruction::StoreDecimal { x } => self.store_decimal(x),
            Instruction::StoreRegisters { x } => self.store_registers(x),
            Instruction::LoadRegisters { x } => self.load_registers(x),
        }
    }

    /// Whether an instruction stays inside memory and the keypad: the bytes
    /// it reads or writes at the address register lie below the end of
    /// memory, and the key it asks about is one of the sixteen.
    pub open spec fn in_bounds(self, instruction: Instruction) -> bool {
        match instruction {
            Instruction::Draw { x, y, rows } => self.index + rows <= 4096,
            Instruction::SkipIfKeyDown { x } => self.registers[x] < 16,
            Instruction::SkipIfKeyUp { x } => self.registers[x] < 16,
            Instruction::StoreDecimal { x } => self.index + 2 < 4096,
            Instruction::StoreRegisters { x } => self.index + x < 4096,
            Instruction::LoadRegisters { x } => self.index + x < 4096,
            _ => true,
        }
    }

    /// The instruction word at the program counter.
    pub open spec fn opcode(self) -> u16 {
        word(self.memory[self.pc], self.memory[self.pc + 1])
    }

    /// Whether a cycle can run: both bytes of the instruction word lie in
    /// memory, and the instruction, where the word stands for one, stays in
    /// bounds.
    pub open spec fn can_step(self) -> bool {
        &&& self.pc + 1 < 4096
        &&& match decode(self.opcode()) {
            Some(instruction) => self.in_bounds(instruction),
            None => true,
        }
    }

    /// One fetch-decode-execute cycle. A word that stands for no instruction
    /// leaves the machine as it was.
    pub open spec fn step(self, random: u8) -> Machine {
        match decode(self.opcode()) {
            Some(instruction) => self.execute(instruction, random),
            None => self,
        }
    }

    /// As many cycles as there are random bytes, each cycle with its byte.
    pub open spec fn run(self, randoms: Seq<u8>) -> Machine
        decreases randoms.len(),
    {
        if randoms.len() == 0 {
            self
        } else {
            self.step(randoms[0]).run(randoms.drop_first())
        }
    }
}

/// `wrapping_add` on bytes is addition modulo 256.
pub proof fn lemma_wrapping_add_u8(a: u8, b: u8)
    ensures
        a.wrapping_add(b) == (a + b) % 256,
{
}

/// `wrapping_sub` on bytes is subtraction modulo 256.
pub proof fn lemma_wrapping_sub_u8(a: u8, b: u8)
    ensures
        a.wrapping_sub(b) == (a - b) % 256,
{
}

/// `wrapping_add` on sixteen-bit words is addition modulo 65536.
pub proof fn lemma_wrapping_add_u16(a: u16, b: u16)
    ensures
        a.wrapping_add(b) == (a + b) % 0x1_0000,
{
}

} // verus!
