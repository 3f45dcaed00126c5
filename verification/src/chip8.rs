//! The interpreter: the machine's state in arrays, and the operations on it.
use vstd::prelude::*;
use crate::display::{
    all_cells, grid_wf, hit_so_far, is_lit, lemma_lit_cells_next, lit_cells, lemma_bit_position, lemma_draw_done, lemma_draw_pixel,
    lemma_draw_row_done, lemma_draw_start, partly_drawn, unpack_msb_first,
};
use crate::font::FONT;
use crate::machine::{
    any_pressed, is_lowest_pressed, lemma_wrapping_add_u16, lemma_wrapping_add_u8,
    lemma_wrapping_sub_u8, lowest_pressed, Machine, MEMORY_SIZE, PROGRAM_START,
};
use crate::opcode::{
    decode, field_n, field_nn, field_nnn, field_x, field_y, lemma_fields_by_mask,
    lemma_word_by_shift, Instruction,
};
use crate::random::random_byte;
use crate::sprite::{bit_at, bits_from_bytes, bits_of};

verus! {

/// A program image could not be had.
#[derive(Debug, Clone, Copy, PartialEq, Eq)]
pub enum LoadError {
    /// The caller had no bytes to give.
    Unavailable,
}

/// An instruction word stands for no instruction.
#[derive(Debug, Clone, Copy, PartialEq, Eq)]
pub struct DecodeError {
    /// The word that was fetched.
    pub opcode: u16,
}

/// The interpreter. Its view is the [`Machine`] that it holds.
pub struct Chip8 {
    display_data: [[bool; 64]; 32],
    ram: [u8; 4096],
    v: [u8; 16],
    key_state: [bool; 16],
    stack: Vec<u16>,
    sound_timer: u8,
    pc: usize,
    address_register: u16,
    delay_timer: u8,
}

/// The rows of a display array, each as a sequence of cells.
pub open spec fn grid_of(cells: [[bool; 64]; 32]) -> Seq<Seq<bool>> {
    Seq::new(32, |r: int| cells@[r]@)
}

impl View for Chip8 {
    type V = Machine;

    closed spec fn view(&self) -> Machine {
        Machine {
            memory: self.ram@,
            registers: self.v@,
            keys: self.key_state@,
            display: grid_of(self.display_data),
            stack: self.stack@,
            pc: self.pc as int,
            index: self.address_register as int,
            delay_timer: self.delay_timer,
            sound_timer: self.sound_timer,
        }
    }
}

impl Chip8 {
    /// The view of an interpreter always has the sizes of a machine.
    pub proof fn lemma_view_wf(&self)
        ensures
            self@.wf(),
    {
    }

    /// A machine with everything zero, off and empty, and the program
    /// counter at the start of program memory.
    pub fn new() -> (chip: Self)
        ensures
            chip@ == Machine::initial(),
    {
        let chip = Self {
            ram: [0; 4096],
            v: [0; 16],
            key_state: [false; 16],
            display_data: [[false; 64]; 32],
            stack: Vec::new(),
            pc: PROGRAM_START,
            address_register: 0,
            delay_timer: 0,
            sound_timer: 0,
        };
        assert(chip@ =~~= Machine::initial());
        chip
    }

    /// Writes the font to the bottom of memory.
    pub fn init_font(self) -> (chip: Self)
        ensures
            chip@ == self@.with_font(),
    {
        let mut chip = self;
        let mut i: usize = 0;
        while i < 80
            invariant
                i <= 80,
                chip@.memory.len() == 4096,
                forall|a: int| 0 <= a < i ==> chip@.memory[a] == FONT@[a],
                forall|a: int| i <= a < 4096 ==> chip@.memory[a] == self@.memory[a],
                chip@ == (Machine { memory: chip@.memory, ..self@ }),
            decreases 80 - i,
        {
            chip.ram[i] = FONT[i];
            i += 1;
        }
        assert(chip@ =~~= self@.with_font());
        chip
    }

    /// Copies a program image to the start of program memory. An image
    /// longer than the room there is loaded as far as it fits. Where the
    /// caller has no image, the machine is left as it was.
    pub fn load_rom(&mut self, image: Option<&[u8]>) -> (loaded: Result<(), LoadError>)
        ensures
            match image {
                Some(bytes) => loaded is Ok && final(self)@ == old(self)@.with_program(bytes@),
                None => loaded == Err::<(), LoadError>(LoadError::Unavailable) && final(self)@
                    == old(self)@,
            },
    {
        let ghost before = self@;
        match image {
            None => Err(LoadError::Unavailable),
            Some(bytes) => {
                let mut i: usize = 0;
                while i < bytes.len() && i < MEMORY_SIZE - PROGRAM_START
                    invariant
                        i <= bytes@.len(),
                        i <= 4096 - 0x200,
                        self@.memory.len() == 4096,
                        forall|a: int| 0x200 <= a < 0x200 + i ==> self@.memory[a] == bytes@[a - 0x200],
                        forall|a: int|
                            0 <= a < 4096 && !(0x200 <= a < 0x200 + i) ==> self@.memory[a]
                                == before.memory[a],
                        self@ == (Machine { memory: self@.memory, ..before }),
                    decreases bytes@.len() - i,
                {
                    self.ram[PROGRAM_START + i] = bytes[i];
                    i += 1;
                }
                assert(self@ =~~= before.with_program(bytes@));
                Ok(())
            },
        }
    }

    /// One tick of both timers.
    pub fn update_timers(&mut self)
        ensures
            final(self)@ == old(self)@.tick(),
    {
        if self.delay_timer > 0 {
            self.delay_timer -= 1;
        }
        if self.sound_timer > 0 {
            self.sound_timer -= 1;
        }
    }

    /// Marks a key as held down.
    pub fn key_press(&mut self, keycode: usize)
        requires
            keycode < 16,
        ensures
            final(self)@ == old(self)@.with_key(keycode as int, true),
    {
        self.key_state[keycode] = true;
    }

    /// Marks a key as let go.
    pub fn key_release(&mut self, keycode: usize)
        requires
            keycode < 16,
        ensures
            final(self)@ == old(self)@.with_key(keycode as int, false),
    {
        self.key_state[keycode] = false;
    }
}

impl Chip8 {
    /// The two register indices of an instruction word.
    pub fn get_xy(&self, opcode: u16) -> (xy: (usize, usize))
        ensures
            xy.0 == field_x(opcode),
            xy.1 == field_y(opcode),
            xy.0 < 16,
            xy.1 < 16,
    {
        proof {
            lemma_fields_by_mask(opcode);
        }
        let x = ((opcode & 0x0F00) >> 8) as usize;
        let y = ((opcode & 0x00F0) >> 4) as usize;

        (x, y)
    }

    /// The low byte of an instruction word.
    fn get_nn(&self, opcode: u16) -> (nn: u8)
        ensures
            nn == field_nn(opcode),
    {
        proof {
            lemma_fields_by_mask(opcode);
        }
        (opcode & 0x00FF) as u8
    }

    /// The low twelve bits of an instruction word.
    fn get_nnn(&self, opcode: u16) -> (nnn: u16)
        ensures
            nnn == field_nnn(opcode),
            nnn < 4096,
    {
        proof {
            lemma_fields_by_mask(opcode);
        }
        opcode & 0x0FFF
    }

    /// The low nibble of an instruction word.
    fn get_n(&self, opcode: u16) -> (n: usize)
        ensures
            n == field_n(opcode),
            n < 16,
    {
        proof {
            lemma_fields_by_mask(opcode);
        }
        (opcode & 0x000F) as usize
    }

    /// `00E0`: turns every cell of the display off.
    pub fn opc_00e0(&mut self)
        requires
            old(self)@.pc + 2 <= usize::MAX,
        ensures
            final(self)@ == old(self)@.clear_screen(),
    {
        self.display_data = [[false; 64]; 32];
        self.pc += 2;
        assert(self@ =~~= old(self)@.clear_screen());
    }

    /// `00EE`: returns from a subroutine; with an empty stack it only moves on.
    pub fn opc_00ee(&mut self)
        requires
            old(self)@.pc + 2 <= usize::MAX,
        ensures
            final(self)@ == old(self)@.subroutine_return(),
    {
        match self.stack.pop() {
            Some(address) => {
                self.pc = address as usize;
            },
            None => {},
        }
        self.pc += 2;
    }

    /// `1nnn`: jumps to `nnn`.
    pub fn opc_1nnn(&mut self, opcode: u16)
        ensures
            final(self)@ == old(self)@.jump(field_nnn(opcode)),
    {
        self.pc = self.get_nnn(opcode) as usize;
    }

    /// `2nnn`: calls the subroutine at `nnn`.
    pub fn opc_2nnn(&mut self, opcode: u16)
        ensures
            final(self)@ == old(self)@.call(field_nnn(opcode)),
    {
        self.stack.push(self.pc as u16);
        self.pc = self.get_nnn(opcode) as usize;
    }

    /// `3xnn`: skips the next instruction where `Vx` equals `nn`.
    pub fn opc_3xnn(&mut self, opcode: u16)
        requires
            old(self)@.pc + 4 <= usize::MAX,
        ensures
            final(self)@ == old(self)@.skip_if(
                old(self)@.registers[field_x(opcode)] == field_nn(opcode),
            ),
    {
        let (x, _) = self.get_xy(opcode);
        if self.v[x] == self.get_nn(opcode) {
            self.pc += 2;
        }
        self.pc += 2;
    }

    /// `4xnn`: skips the next instruction where `Vx` differs from `nn`.
    pub fn opc_4xnn(&mut self, opcode: u16)
        requires
            old(self)@.pc + 4 <= usize::MAX,
        ensures
            final(self)@ == old(self)@.skip_if(
                old(self)@.registers[field_x(opcode)] != field_nn(opcode),
            ),
    {
        let (x, _) = self.get_xy(opcode);
        if self.v[x] != self.get_nn(opcode) {
            self.pc += 2;
        }
        self.pc += 2;
    }

    /// `5xy0`: skips the next instruction where `Vx` equals `Vy`.
    pub fn opc_5xy0(&mut self, opcode: u16)
        requires
            old(self)@.pc + 4 <= usize::MAX,
        ensures
            final(self)@ == old(self)@.skip_if(
                old(self)@.registers[field_x(opcode)] == old(self)@.registers[field_y(opcode)],
            ),
    {
        let (x, y) = self.get_xy(opcode);
        if self.v[x] == self.v[y] {
            self.pc += 2;
        }
        self.pc += 2;
    }

    /// `6xnn`: sets `Vx` to `nn`.
    pub fn opc_6xnn(&mut self, opcode: u16)
        requires
            old(self)@.pc + 2 <= usize::MAX,
        ensures
            final(self)@ == old(self)@.with_register(field_x(opcode), field_nn(opcode)).advance(2),
    {
        let (x, _) = self.get_xy(opcode);
        self.v[x] = self.get_nn(opcode);
        self.pc += 2;
    }

    /// `7xnn`: adds `nn` to `Vx` modulo 256; no flag is written.
    pub fn opc_7xnn(&mut self, opcode: u16)
        requires
            old(self)@.pc + 2 <= usize::MAX,
        ensures
            final(self)@ == old(self)@.add_immediate(field_x(opcode), field_nn(opcode)),
    {
        let (x, _) = self.get_xy(opcode);
        let value = self.get_nn(opcode);
        proof {
            lemma_wrapping_add_u8(self.v[x as int], value);
        }
        self.v[x] = self.v[x].wrapping_add(value);
        self.pc += 2;
    }

    /// `8xy0`: copies `Vy` to `Vx`.
    pub fn opc_8xy0(&mut self, opcode: u16)
        requires
            old(self)@.pc + 2 <= usize::MAX,
        ensures
            final(self)@ == old(self)@.with_register(
                field_x(opcode),
                old(self)@.registers[field_y(opcode)],
            ).advance(2),
    {
        let (x, y) = self.get_xy(opcode);
        self.v[x] = self.v[y];
        self.pc += 2;
    }

    /// `8xy1`: ors `Vy` into `Vx`.
    pub fn opc_8xy1(&mut self, opcode: u16)
        requires
            old(self)@.pc + 2 <= usize::MAX,
        ensures
            final(self)@ == old(self)@.with_register(
                field_x(opcode),
                old(self)@.registers[field_x(opcode)] | old(self)@.registers[field_y(opcode)],
            ).advance(2),
    {
        let (x, y) = self.get_xy(opcode);

        self.v[x] = self.v[x] | self.v[y];
        self.pc += 2;
    }

    /// `8xy2`: ands `Vy` into `Vx`.
    pub fn opc_8xy2(&mut self, opcode: u16)
        requires
            old(self)@.pc + 2 <= usize::MAX,
        ensures
            final(self)@ == old(self)@.with_register(
                field_x(opcode),
                old(self)@.registers[field_x(opcode)] & old(self)@.registers[field_y(opcode)],
            ).advance(2),
    {
        let (x, y) = self.get_xy(opcode);

        self.v[x] = self.v[x] & self.v[y];
        self.pc += 2;
    }

    /// `8xy3`: xors `Vy` into `Vx`.
    pub fn opc_8xy3(&mut self, opcode: u16)
        requires
            old(self)@.pc + 2 <= usize::MAX,
        ensures
            final(self)@ == old(self)@.with_register(
                field_x(opcode),
                old(self)@.registers[field_x(opcode)] ^ old(self)@.registers[field_y(opcode)],
            ).advance(2),
    {
        let (x, y) = self.get_xy(opcode);

        self.v[x] = self.v[x] ^ self.v[y];
        self.pc += 2;
    }

    /// `8xy4`: adds `Vy` to `Vx` modulo 256, then writes the carry to `VF`.
    pub fn opc_8xy4(&mut self, opcode: u16)
        requires
            old(self)@.pc + 2 <= usize::MAX,
        ensures
            final(self)@ == old(self)@.add_registers(field_x(opcode), field_y(opcode)),
    {
        let (x, y) = self.get_xy(opcode);

        let overflow_occurs = self.v[x].checked_add(self.v[y]).is_none();
        proof {
            lemma_wrapping_add_u8(self.v[x as int], self.v[y as int]);
        }

        self.v[x] = self.v[x].wrapping_add(self.v[y]);
        self.v[0xF] = if overflow_occurs { 1 } else { 0 };
        self.pc += 2;
    }

    /// `8xy5`: takes `Vy` from `Vx` modulo 256, then writes 0 to `VF` on a borrow and 1
    /// otherwise.
    pub fn opc_8xy5(&mut self, opcode: u16)
        requires
            old(self)@.pc + 2 <= usize::MAX,
        ensures
            final(self)@ == old(self)@.subtract_registers(field_x(opcode), field_y(opcode)),
    {
        let (x, y) = self.get_xy(opcode);

        let no_borrow: u8 = if self.v[y] > self.v[x] { 0 } else { 1 };
        proof {
            lemma_wrapping_sub_u8(self.v[x as int], self.v[y as int]);
        }

        self.v[x] = self.v[x].wrapping_sub(self.v[y]);
        self.v[0xF] = no_borrow;
        self.pc += 2;
    }

    /// `8xy6`: writes the lowest bit of `Vx` to `VF`, then half of `Vy` to `Vx`.
    pub fn opc_8xy6(&mut self, opcode: u16)
        requires
            old(self)@.pc + 2 <= usize::MAX,
        ensures
            final(self)@ == old(self)@.shift_right(field_x(opcode), field_y(opcode)),
    {
        let (x, y) = self.get_xy(opcode);

        let low = self.v[x];
        assert(low & 1 == low % 2) by (bit_vector);
        self.v[0xF] = low & 1;
        let source = self.v[y];
        assert(source >> 1 == source / 2) by (bit_vector);
        self.v[x] = source >> 1;
        self.pc += 2;
    }

    /// `8xy7`: takes `Vx` from `Vy` modulo 256, then writes 0 to `VF` where `Vx` exceeded
    /// `Vy` and 1 otherwise.
    pub fn opc_8xy7(&mut self, opcode: u16)
        requires
            old(self)@.pc + 2 <= usize::MAX,
        ensures
            final(self)@ == old(self)@.subtract_into(field_x(opcode), field_y(opcode)),
    {
        let (x, y) = self.get_xy(opcode);

        let no_borrow: u8 = if self.v[x] > self.v[y] { 0 } else { 1 };
        proof {
            lemma_wrapping_sub_u8(self.v[y as int], self.v[x as int]);
        }

        self.v[y] = self.v[y].wrapping_sub(self.v[x]);
        self.v[0xF] = no_borrow;
        self.pc += 2;
    }

    /// `8xyE`: writes the highest bit of `Vx` to `VF`, then doubles `Vx` modulo 256.
    pub fn opc_8xye(&mut self, opcode: u16)
        requires
            old(self)@.pc + 2 <= usize::MAX,
        ensures
            final(self)@ == old(self)@.shift_left(field_x(opcode)),
    {
        let (x, _) = self.get_xy(opcode);

        let high = self.v[x];
        assert(high >> 7 == high / 128) by (bit_vector);
        self.v[0xF] = high >> 7;
        let source = self.v[x];
        assert(source << 1 == (source * 2) % 256) by (bit_vector);
        self.v[x] = source << 1;
        self.pc += 2;
    }

    /// `9xy0`: skips the next instruction where `Vx` differs from `Vy`.
    pub fn opc_9xy0(&mut self, opcode: u16)
        requires
            old(self)@.pc + 4 <= usize::MAX,
        ensures
            final(self)@ == old(self)@.skip_if(
                old(self)@.registers[field_x(opcode)] != old(self)@.registers[field_y(opcode)],
            ),
    {
        let (x, y) = self.get_xy(opcode);
        if self.v[x] != self.v[y] {
            self.pc += 2;
        }
        self.pc += 2;
    }

    /// `Annn`: sets the address register to `nnn`.
    pub fn opc_annn(&mut self, opcode: u16)
        requires
            old(self)@.pc + 2 <= usize::MAX,
        ensures
            final(self)@ == old(self)@.set_index(field_nnn(opcode)),
    {
        self.address_register = self.get_nnn(opcode);
        self.pc += 2;
    }

    /// `Bnnn`: jumps to `nnn` plus `V0`.
    pub fn opc_bnnn(&mut self, opcode: u16)
        ensures
            final(self)@ == old(self)@.jump_offset(field_nnn(opcode)),
    {
        self.pc = self.get_nnn(opcode) as usize + self.v[0] as usize;
    }

    /// `Cxnn`, for a random byte given by the caller: sets `Vx` to that byte
    /// masked with `nn`.
    pub fn opc_cxnn(&mut self, opcode: u16, random: u8)
        requires
            old(self)@.pc + 2 <= usize::MAX,
        ensures
            final(self)@ == old(self)@.random_masked(field_x(opcode), field_nn(opcode), random),
    {
        let (x, _) = self.get_xy(opcode);
        self.v[x] = random & self.get_nn(opcode);
        self.pc += 2;
    }

    /// `Ex9E`: skips the next instruction where key `Vx` is held down.
    pub fn opc_ex9e(&mut self, opcode: u16)
        requires
            old(self)@.pc + 4 <= usize::MAX,
            old(self)@.registers[field_x(opcode)] < 16,
        ensures
            final(self)@ == old(self)@.skip_if(
                old(self)@.keys[old(self)@.registers[field_x(opcode)] as int],
            ),
    {
        let (x, _) = self.get_xy(opcode);
        if self.key_state[self.v[x] as usize] {
            self.pc += 2;
        }
        self.pc += 2;
    }

    /// `ExA1`: skips the next instruction where key `Vx` is not held down.
    pub fn opc_exa1(&mut self, opcode: u16)
        requires
            old(self)@.pc + 4 <= usize::MAX,
            old(self)@.registers[field_x(opcode)] < 16,
        ensures
            final(self)@ == old(self)@.skip_if(
                !old(self)@.keys[old(self)@.registers[field_x(opcode)] as int],
            ),
    {
        let (x, _) = self.get_xy(opcode);
        if !self.key_state[self.v[x] as usize] {
            self.pc += 2;
        }
        self.pc += 2;
    }

    /// `Fx07`: reads the delay timer into `Vx`.
    pub fn opc_fx07(&mut self, opcode: u16)
        requires
            old(self)@.pc + 2 <= usize::MAX,
        ensures
            final(self)@ == old(self)@.with_register(
                field_x(opcode),
                old(self)@.delay_timer,
            ).advance(2),
    {
        let (x, _) = self.get_xy(opcode);
        self.v[x] = self.delay_timer;
        self.pc += 2;
    }

    /// `Fx15`: sets the delay timer to `Vx`.
    pub fn opc_fx15(&mut self, opcode: u16)
        requires
            old(self)@.pc + 2 <= usize::MAX,
        ensures
            final(self)@ == (Machine {
                delay_timer: old(self)@.registers[field_x(opcode)],
                ..old(self)@
            }).advance(2),
    {
        let (x, _) = self.get_xy(opcode);
        self.delay_timer = self.v[x];
        self.pc += 2;
    }

    /// `Fx18`: sets the sound timer to `Vx`.
    pub fn opc_fx18(&mut self, opcode: u16)
        requires
            old(self)@.pc + 2 <= usize::MAX,
        ensures
            final(self)@ == (Machine {
                sound_timer: old(self)@.registers[field_x(opcode)],
                ..old(self)@
            }).advance(2),
    {
        let (x, _) = self.get_xy(opcode);
        self.sound_timer = self.v[x];
        self.pc += 2;
    }

    /// `Fx1E`: adds `Vx` to the address register, wrapping at sixteen bits.
    pub fn opc_fx1e(&mut self, opcode: u16)
        requires
            old(self)@.pc + 2 <= usize::MAX,
        ensures
            final(self)@ == old(self)@.add_index(field_x(opcode)),
    {
        let (x, _) = self.get_xy(opcode);
        proof {
            lemma_wrapping_add_u16(self.address_register, self.v[x as int] as u16);
        }
        self.address_register = self.address_register.wrapping_add(self.v[x] as u16);
        self.pc += 2;
    }

    /// `Fx29`: points the address register at the glyph for the digit in `Vx`.
    pub fn opc_fx29(&mut self, opcode: u16)
        requires
            old(self)@.pc + 2 <= usize::MAX,
        ensures
            final(self)@ == old(self)@.glyph(field_x(opcode)),
    {
        let (x, _) = self.get_xy(opcode);

        self.address_register = self.v[x] as u16 * 5;
        self.pc += 2;
    }

    /// `Fx33`: writes the three decimal digits of `Vx` at the address register.
    pub fn opc_fx33(&mut self, opcode: u16)
        requires
            old(self)@.pc + 2 <= usize::MAX,
            old(self)@.index + 2 < 4096,
        ensures
            final(self)@ == old(self)@.store_decimal(field_x(opcode)),
    {
        let (x, _) = self.get_xy(opcode);
        let value = self.v[x];
        let at = self.address_register as usize;

        self.ram[at] = value / 100;
        self.ram[at + 1] = (value / 10) % 10;
        self.ram[at + 2] = value % 10;
        self.pc += 2;
    }
}

impl Chip8 {
    /// The lowest key that is held down, if any is.
    fn first_pressed_key(&self) -> (found: Option<usize>)
        ensures
            match found {
                Some(key) => is_lowest_pressed(self@.keys, key as int),
                None => !any_pressed(self@.keys),
            },
    {
        let mut key: usize = 0;
        while key < 16
            invariant
                key <= 16,
                forall|j: int| 0 <= j < key ==> !self@.keys[j],
            decreases 16 - key,
        {
            if self.key_state[key] {
                return Some(key);
            }
            key += 1;
        }
        None
    }

    /// `Fx0A`: takes the lowest key held down into `Vx` and moves on; with no key
    /// down it changes nothing, so that it runs again.
    pub fn opc_fx0a(&mut self, opcode: u16)
        requires
            old(self)@.pc + 2 <= usize::MAX,
        ensures
            final(self)@ == old(self)@.wait_key(field_x(opcode)),
    {
        let (x, _) = self.get_xy(opcode);

        match self.first_pressed_key() {
            Some(value) => {
                proof {
                    let keys = self@.keys;
                    let chosen = lowest_pressed(keys);
                    assert(is_lowest_pressed(keys, value as int));
                    assert(is_lowest_pressed(keys, chosen));
                    assert(chosen == value);
                }
                self.v[x] = value as u8;
                self.pc += 2;
            },
            None => {},
        }
    }

    /// `Fx55`: copies `V0` to `Vx` into memory at the address register.
    pub fn opc_fx55(&mut self, opcode: u16)
        requires
            old(self)@.pc + 2 <= usize::MAX,
            old(self)@.index + field_x(opcode) < 4096,
        ensures
            final(self)@ == old(self)@.store_registers(field_x(opcode)),
    {
        let (x, _) = self.get_xy(opcode);
        let at = self.address_register as usize;

        let mut pos: usize = 0;
        while pos < x + 1
            invariant
                pos <= x + 1,
                x < 16,
                at + x < 4096,
                at == old(self)@.index,
                forall|a: int| at <= a < at + pos ==> self@.memory[a] == old(self)@.registers[a - at],
                forall|a: int|
                    0 <= a < 4096 && !(at <= a < at + pos) ==> self@.memory[a] == old(self)@.memory[a],
                self@ == (Machine { memory: self@.memory, ..old(self)@ }),
            decreases x + 1 - pos,
        {
            self.ram[at + pos] = self.v[pos];
            pos += 1;
        }
        self.address_register += (x + 1) as u16;
        self.pc += 2;
        assert(self@ =~~= old(self)@.store_registers(field_x(opcode)));
    }

    /// `Fx65`: fills `V0` to `Vx` from memory at the address register.
    pub fn opc_fx65(&mut self, opcode: u16)
        requires
            old(self)@.pc + 2 <= usize::MAX,
            old(self)@.index + field_x(opcode) < 4096,
        ensures
            final(self)@ == old(self)@.load_registers(field_x(opcode)),
    {
        let (x, _) = self.get_xy(opcode);

        let mut pos: usize = 0;
        while pos < x + 1
            invariant
                pos <= x + 1,
                x < 16,
                old(self)@.index + x < 4096,
                self@.index == old(self)@.index + pos,
                forall|r: int| 0 <= r < pos ==> self@.registers[r] == old(self)@.memory[old(self)@.index + r],
                forall|r: int| pos <= r < 16 ==> self@.registers[r] == old(self)@.registers[r],
                self@ == (Machine {
                    registers: self@.registers,
                    index: self@.index,
                    ..old(self)@
                }),
            decreases x + 1 - pos,
        {
            self.v[pos] = self.ram[self.address_register as usize];
            self.address_register += 1;
            pos += 1;
        }
        self.pc += 2;
        assert(self@ =~~= old(self)@.load_registers(field_x(opcode)));
    }
}

impl Chip8 {
    /// `Dxyn`: xors the sprite of `n` rows at the address register onto the display
    /// at column `Vx`, row `Vy`, and writes to `VF` whether a lit cell went off.
    pub fn opc_dxyn(&mut self, opcode: u16)
        requires
            old(self)@.pc + 2 <= usize::MAX,
            old(self)@.index + field_n(opcode) <= 4096,
        ensures
            final(self)@ == old(self)@.draw(field_x(opcode), field_y(opcode), field_n(opcode)),
    {
        let (x, y) = self.get_xy(opcode);
        let height = self.get_n(opcode);
        let start = self.address_register as usize;

        let sprite = bits_from_bytes(&self.ram[start..start + height]);
        let column = self.v[x] as usize;
        let row = self.v[y] as usize;

        let ghost before = self@;
        let ghost rows = before.sprite(height as int);
        proof {
            lemma_draw_start(before.display, rows, column as int, row as int);
        }

        let mut set_flag: u8 = 0;
        let mut i: usize = 0;
        while i < height
            invariant
                i <= height,
                height < 16,
                column < 256,
                row < 256,
                rows.len() == height,
                bits_of(sprite) == unpack_msb_first(rows),
                grid_wf(before.display),
                self@ == (Machine { display: self@.display, ..before }),
                partly_drawn(before.display, self@.display, rows, column as int, row as int, i as int, 0),
                set_flag == 0 || set_flag == 1,
                set_flag == 1 <==> hit_so_far(before.display, rows, column as int, row as int, i as int, 0),
            decreases height - i,
        {
            let mut j: usize = 0;
            while j < 8
                invariant
                    j <= 8,
                    i < height,
                    height < 16,
                    column < 256,
                    row < 256,
                    rows.len() == height,
                    bits_of(sprite) == unpack_msb_first(rows),
                    grid_wf(before.display),
                    self@ == (Machine { display: self@.display, ..before }),
                    partly_drawn(
                        before.display,
                        self@.display,
                        rows,
                        column as int,
                        row as int,
                        i as int,
                        j as int,
                    ),
                    set_flag == 0 || set_flag == 1,
                    set_flag == 1 <==> hit_so_far(
                        before.display,
                        rows,
                        column as int,
                        row as int,
                        i as int,
                        j as int,
                    ),
                decreases 8 - j,
            {
                let y_coord = (row + i) % 32;
                let x_coord = (column + j) % 64;
                let ghost grid = self@.display;
                proof {
                    lemma_bit_position(rows, i as int, j as int);
                }
                let bit = bit_at(&sprite, 8 * i + j);
                let lit = self.display_data[y_coord][x_coord];
                let new_value = lit ^ bit;

                if lit && !new_value {
                    set_flag = 1;
                }
                self.display_data[y_coord][x_coord] = new_value;
                proof {
                    assert(self@.display =~~= grid.update(
                        y_coord as int,
                        grid[y_coord as int].update(x_coord as int, new_value),
                    ));
                    lemma_draw_pixel(
                        before.display,
                        grid,
                        self@.display,
                        rows,
                        column as int,
                        row as int,
                        i as int,
                        j as int,
                    );
                }
                j += 1;
            }
            proof {
                lemma_draw_row_done(
                    before.display,
                    self@.display,
                    rows,
                    column as int,
                    row as int,
                    i as int,
                );
            }
            i += 1;
        }
        proof {
            lemma_draw_done(before.display, self@.display, rows, column as int, row as int);
        }

        self.v[0xF] = set_flag;
        self.pc += 2;
    }
}

impl Chip8 {
    /// The instruction word at the program counter.
    fn fetch(&self) -> (opcode: u16)
        requires
            self@.pc + 1 < 4096,
        ensures
            opcode == self@.opcode(),
    {
        let hi = self.ram[self.pc] as u16;
        let lo = self.ram[self.pc + 1] as u16;
        proof {
            lemma_word_by_shift(self.ram[self.pc as int], self.ram[self.pc + 1]);
        }

        (hi << 8) | lo
    }

    /// Whether a cycle can run from this state: the instruction word lies in
    /// memory, and the instruction stays inside memory and the keypad.
    pub fn can_execute(&self) -> (ok: bool)
        ensures
            ok == self@.can_step(),
    {
        if self.pc >= 4095 {
            return false;
        }
        let opcode = self.fetch();
        proof {
            lemma_fields_by_mask(opcode);
        }
        let (x, _) = self.get_xy(opcode);
        let index = self.address_register as usize;

        match opcode & 0xF000 {
            0xD000 => index + (opcode & 0x000F) as usize <= 4096,
            0xE000 => {
                match opcode & 0x00FF {
                    0x009E => self.v[x] < 16,
                    0x00A1 => self.v[x] < 16,
                    _ => true,
                }
            },
            0xF000 => {
                match opcode & 0x00FF {
                    0x0033 => index + 2 < 4096,
                    0x0055 => index + x < 4096,
                    0x0065 => index + x < 4096,
                    _ => true,
                }
            },
            _ => true,
        }
    }

    /// One fetch-decode-execute cycle, with the byte that a `Cxnn`
    /// instruction would use given by the caller. A word that stands for no
    /// instruction is an error, and leaves the machine as it was.
    pub fn execute_with(&mut self, random: u8) -> (outcome: Result<(), DecodeError>)
        requires
            old(self)@.can_step(),
        ensures
            final(self)@ == old(self)@.step(random),
            outcome is Ok <==> decode(old(self)@.opcode()) is Some,
            outcome matches Err(error) ==> error.opcode == old(self)@.opcode() && final(self)@
                == old(self)@,
    {
        let opcode = self.fetch();
        proof {
            lemma_fields_by_mask(opcode);
        }

        match opcode & 0xF000 {
            0x0000 => {
                match opcode {
                    0x00E0 => self.opc_00e0(),
                    0x00EE => self.opc_00ee(),
                    _ => {
                        return Err(DecodeError { opcode });
                    },
                }
            },
            0x1000 => self.opc_1nnn(opcode),
            0x2000 => self.opc_2nnn(opcode),
            0x3000 => self.opc_3xnn(opcode),
            0x4000 => self.opc_4xnn(opcode),
            0x5000 => {
                match opcode & 0x000F {
                    0x0000 => self.opc_5xy0(opcode),
                    _ => {
                        return Err(DecodeError { opcode });
                    },
                }
            },
            0x6000 => self.opc_6xnn(opcode),
            0x7000 => self.opc_7xnn(opcode),
            0x8000 => {
                match opcode & 0x000F {
                    0x0000 => self.opc_8xy0(opcode),
                    0x0001 => self.opc_8xy1(opcode),
                    0x0002 => self.opc_8xy2(opcode),
                    0x0003 => self.opc_8xy3(opcode),
                    0x0004 => self.opc_8xy4(opcode),
                    0x0005 => self.opc_8xy5(opcode),
                    0x0006 => self.opc_8xy6(opcode),
                    0x0007 => self.opc_8xy7(opcode),
                    0x000E => self.opc_8xye(opcode),
                    _ => {
                        return Err(DecodeError { opcode });
                    },
                }
            },
            0x9000 => {
                match opcode & 0x000F {
                    0x0000 => self.opc_9xy0(opcode),
                    _ => {
                        return Err(DecodeError { opcode });
                    },
                }
            },
            0xA000 => self.opc_annn(opcode),
            0xB000 => self.opc_bnnn(opcode),
            0xC000 => self.opc_cxnn(opcode, random),
            0xD000 => self.opc_dxyn(opcode),
            0xE000 => {
                match opcode & 0x00FF {
                    0x009E => self.opc_ex9e(opcode),
                    0x00A1 => self.opc_exa1(opcode),
                    _ => {
                        return Err(DecodeError { opcode });
                    },
                }
            },
            0xF000 => {
                match opcode & 0x00FF {
                    0x0007 => self.opc_fx07(opcode),
                    0x000A => self.opc_fx0a(opcode),
                    0x0015 => self.opc_fx15(opcode),
                    0x0018 => self.opc_fx18(opcode),
                    0x001E => self.opc_fx1e(opcode),
                    0x0029 => self.opc_fx29(opcode),
                    0x0033 => self.opc_fx33(opcode),
                    0x0055 => self.opc_fx55(opcode),
                    0x0065 => self.opc_fx65(opcode),
                    _ => {
                        return Err(DecodeError { opcode });
                    },
                }
            },
            _ => {
                return Err(DecodeError { opcode });
            },
        }
        Ok(())
    }

    /// One fetch-decode-execute cycle. A `Cxnn` instruction takes its byte
    /// from the thread-local random generator, so that for it the result is
    /// one of the 256 that [`Chip8::execute_with`] can give; every other
    /// instruction gives the one result that it gives there.
    pub fn execute_instruction(&mut self) -> (outcome: Result<(), DecodeError>)
        requires
            old(self)@.can_step(),
        ensures
            exists|random: u8| final(self)@ == #[trigger] old(self)@.step(random),
            !(decode(old(self)@.opcode()) matches Some(Instruction::Random { .. }))
                ==> final(self)@ == old(self)@.step(0),
            outcome is Ok <==> decode(old(self)@.opcode()) is Some,
            outcome matches Err(error) ==> error.opcode == old(self)@.opcode() && final(self)@
                == old(self)@,
    {
        let opcode = self.fetch();
        proof {
            lemma_fields_by_mask(opcode);
        }
        let random = if opcode & 0xF000 == 0xC000 {
            random_byte()
        } else {
            0
        };
        self.execute_with(random)
    }
}

impl Chip8 {
    /// The value of register `Vx`.
    pub fn register(&self, x: usize) -> (value: u8)
        requires
            x < 16,
        ensures
            value == self@.registers[x as int],
    {
        self.v[x]
    }

    /// The address of the next instruction.
    pub fn program_counter(&self) -> (pc: usize)
        ensures
            pc == self@.pc,
    {
        self.pc
    }

    /// The address register.
    pub fn address_register(&self) -> (index: u16)
        ensures
            index == self@.index,
    {
        self.address_register
    }

    /// The byte of memory at an address.
    pub fn memory(&self, address: usize) -> (byte: u8)
        requires
            address < 4096,
        ensures
            byte == self@.memory[address as int],
    {
        self.ram[address]
    }

    /// The delay timer.
    pub fn delay_timer(&self) -> (ticks: u8)
        ensures
            ticks == self@.delay_timer,
    {
        self.delay_timer
    }

    /// The sound timer: a tone is due while it is above zero.
    pub fn sound_timer(&self) -> (ticks: u8)
        ensures
            ticks == self@.sound_timer,
    {
        self.sound_timer
    }

    /// Whether a key is held down.
    pub fn key_state(&self, keycode: usize) -> (down: bool)
        requires
            keycode < 16,
        ensures
            down == self@.keys[keycode as int],
    {
        self.key_state[keycode]
    }

    /// Whether the cell in column `x`, row `y` is lit.
    pub fn pixel(&self, x: usize, y: usize) -> (lit: bool)
        requires
            x < 64,
            y < 32,
        ensures
            lit == self@.display[y as int][x as int],
    {
        self.display_data[y][x]
    }

    /// The display, row by row.
    pub fn display_data(&self) -> (cells: &[[bool; 64]; 32])
        ensures
            grid_of(*cells) == self@.display,
    {
        &self.display_data
    }

    /// The coordinates `(x, y)` of the lit cells, row by row from the top,
    /// each row from the left.
    pub fn lit_cells(&self) -> (cells: Vec<(usize, usize)>)
        ensures
            cells@ == lit_cells(self@.display),
    {
        let mut cells: Vec<(usize, usize)> = Vec::new();
        proof {
            lemma_lit_cells_next(self@.display, 0);
        }
        let mut y: usize = 0;
        while y < 32
            invariant
                y <= 32,
                cells@ == all_cells().take(64 * y).filter(is_lit(self@.display)),
            decreases 32 - y,
        {
            let mut x: usize = 0;
            while x < 64
                invariant
                    x <= 64,
                    y < 32,
                    cells@ == all_cells().take(64 * y + x).filter(is_lit(self@.display)),
                decreases 64 - x,
            {
                proof {
                    lemma_lit_cells_next(self@.display, 64 * y + x);
                    assert((64 * y + x) / 64 == y && (64 * y + x) % 64 == x);
                }
                if self.display_data[y][x] {
                    cells.push((x, y));
                }
                x += 1;
            }
            y += 1;
        }
        proof {
            lemma_lit_cells_next(self@.display, 0);
        }
        cells
    }

    /// Whether a tone is due: the sound timer has not run out.
    pub fn tone_due(&self) -> (due: bool)
        ensures
            due == self@.tone_due(),
    {
        self.sound_timer > 0
    }

    /// How many return addresses are on the call stack.
    pub fn stack_depth(&self) -> (depth: usize)
        ensures
            depth == self@.stack.len(),
    {
        self.stack.len()
    }
}

} // verus!
