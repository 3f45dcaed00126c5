//! What holds of the instruction set whatever the machine's state.
//!
//! Each law is stated over [`Machine::execute`] or [`Machine::step`], the
//! functions in which the interpreter's contracts say what a cycle does.
use vstd::prelude::*;
use crate::display::{all_cells, collides, grid_wf, is_lit, lit_cells, sprite_covers, sprite_pixel};
use crate::font::{font_table, glyph, glyph_address};
use crate::machine::{any_pressed, is_lowest_pressed, lowest_pressed, Machine};
use crate::opcode::{decode, Instruction};

verus! {

/// `7xnn` adds modulo 256 and writes no flag: every register but `Vx`,
/// `VF` among them, keeps its value.
pub proof fn law_add_immediate_wraps(m: Machine, x: int, value: u8, random: u8)
    requires
        m.wf(),
        0 <= x < 16,
    ensures
        ({
            let after = m.execute(Instruction::AddImmediate { x, value }, random);
            &&& after.registers[x] == (m.registers[x] + value) % 256
            &&& forall|r: int| 0 <= r < 16 && r != x ==> after.registers[r] == m.registers[r]
            &&& after.pc == m.pc + 2
        }),
{
}

/// `8xy4`: `VF` is 1 exactly where the sum of the two registers as they
/// were exceeds 255, whichever registers they are; and `Vx`, where it is not
/// `VF` itself, takes that sum modulo 256.
pub proof fn law_add_sets_carry(m: Machine, x: int, y: int, random: u8)
    requires
        m.wf(),
        0 <= x < 16,
        0 <= y < 16,
    ensures
        ({
            let after = m.execute(Instruction::Add { x, y }, random);
            let sum = m.registers[x] + m.registers[y];
            &&& x != 0xF ==> after.registers[x] == sum % 256
            &&& after.registers[0xF] == if sum > 255 { 1int } else { 0int }
            &&& forall|r: int|
                0 <= r < 15 && r != x ==> after.registers[r] == m.registers[r]
        }),
{
}

/// `8xy5`: `VF` is 0 exactly where `Vy` exceeds `Vx`, both as they were,
/// whichever registers they are; and `Vx`, where it is not `VF` itself,
/// takes their difference modulo 256.
pub proof fn law_subtract_sets_borrow(m: Machine, x: int, y: int, random: u8)
    requires
        m.wf(),
        0 <= x < 16,
        0 <= y < 16,
    ensures
        ({
            let after = m.execute(Instruction::Subtract { x, y }, random);
            &&& x != 0xF ==> after.registers[x] == (m.registers[x] - m.registers[y]) % 256
            &&& after.registers[0xF] == if m.registers[y] > m.registers[x] { 0int } else { 1int }
            &&& forall|r: int|
                0 <= r < 15 && r != x ==> after.registers[r] == m.registers[r]
        }),
{
}

/// `8xy7`: `VF` is 0 exactly where `Vx` exceeds `Vy`, both as they were,
/// whichever registers they are; and `Vy`, where it is not `VF` itself,
/// takes `Vy - Vx` modulo 256.
pub proof fn law_subtract_into_sets_borrow(m: Machine, x: int, y: int, random: u8)
    requires
        m.wf(),
        0 <= x < 16,
        0 <= y < 16,
    ensures
        ({
            let after = m.execute(Instruction::SubtractInto { x, y }, random);
            &&& y != 0xF ==> after.registers[y] == (m.registers[y] - m.registers[x]) % 256
            &&& after.registers[0xF] == if m.registers[x] > m.registers[y] { 0int } else { 1int }
            &&& forall|r: int|
                0 <= r < 15 && r != y ==> after.registers[r] == m.registers[r]
        }),
{
}

/// After `00E0` every cell of the display is off.
pub proof fn law_clear_screen(m: Machine, random: u8)
    requires
        m.wf(),
    ensures
        grid_wf(m.execute(Instruction::ClearScreen, random).display),
        forall|r: int, c: int|
            0 <= r < 32 && 0 <= c < 64 ==> !(#[trigger] m.execute(
                Instruction::ClearScreen,
                random,
            ).display[r][c]),
{
}

/// A call followed by a return comes back to the instruction after the
/// call, with the stack as it was before the call.
pub proof fn law_call_then_return(m: Machine, addr: int, random: u8)
    requires
        m.wf(),
        m.pc + 1 < 4096,
    ensures
        ({
            let called = m.execute(Instruction::Call { addr }, random);
            let returned = called.execute(Instruction::Return, random);
            &&& called.pc == addr
            &&& returned.pc == m.pc + 2
            &&& returned.stack == m.stack
        }),
{
    let called = m.execute(Instruction::Call { addr }, random);
    assert(called.stack.drop_last() =~= m.stack);
}

/// The same holds where the two instructions are fetched from memory: a
/// cycle that runs a call, followed by a cycle that runs a return, leaves
/// the program counter after the call.
pub proof fn law_call_then_return_cycles(m: Machine, addr: int, first: u8, second: u8)
    requires
        m.wf(),
        m.can_step(),
        decode(m.opcode()) == Some(Instruction::Call { addr }),
        decode(m.step(first).opcode()) == Some(Instruction::Return),
    ensures
        m.step(first).step(second).pc == m.pc + 2,
        m.step(first).step(second).stack == m.stack,
{
    law_call_then_return(m, addr, first);
    let called = m.execute(Instruction::Call { addr }, first);
    assert(called.stack.drop_last() =~= m.stack);
}

/// Drawing a sprite twice at the same place puts the display back as it
/// was. The two registers that give the place must not be `VF`, which the
/// first drawing overwrites.
pub proof fn law_draw_twice_restores(m: Machine, x: int, y: int, rows: int, random: u8)
    requires
        m.wf(),
        0 <= x < 15,
        0 <= y < 15,
        0 <= rows < 16,
        m.index + rows <= 4096,
    ensures
        ({
            let once = m.execute(Instruction::Draw { x, y, rows }, random);
            let twice = once.execute(Instruction::Draw { x, y, rows }, random);
            twice.display == m.display
        }),
{
    let once = m.execute(Instruction::Draw { x, y, rows }, random);
    let twice = once.execute(Instruction::Draw { x, y, rows }, random);
    assert(once.sprite(rows) == m.sprite(rows));
    assert(twice.display =~~= m.display);
}

/// Drawing a sprite onto cells that are all off, and then once more at the
/// same place, leaves those cells off again; the second drawing reports a
/// collision exactly where the sprite has a set pixel, and the first reports
/// none.
pub proof fn law_draw_twice_collides(m: Machine, x: int, y: int, rows: int, random: u8)
    requires
        m.wf(),
        0 <= x < 15,
        0 <= y < 15,
        0 <= rows < 16,
        m.index + rows <= 4096,
        forall|r: int, c: int|
            0 <= r < 32 && 0 <= c < 64 && sprite_covers(
                m.sprite(rows),
                m.registers[x] as int,
                m.registers[y] as int,
                r,
                c,
            ) ==> !(#[trigger] m.display[r][c]),
    ensures
        ({
            let sprite = m.sprite(rows);
            let vx = m.registers[x] as int;
            let vy = m.registers[y] as int;
            let once = m.execute(Instruction::Draw { x, y, rows }, random);
            let twice = once.execute(Instruction::Draw { x, y, rows }, random);
            &&& once.registers[0xF] == 0
            &&& twice.registers[0xF] == 1 <==> exists|i: int, j: int|
                0 <= i < rows && 0 <= j < 8 && #[trigger] sprite_pixel(sprite, i, j)
            &&& twice.registers[0xF] == 0 || twice.registers[0xF] == 1
            &&& forall|r: int, c: int|
                0 <= r < 32 && 0 <= c < 64 && sprite_covers(sprite, vx, vy, r, c) ==> !(
                #[trigger] twice.display[r][c])
        }),
{
    let sprite = m.sprite(rows);
    let vx = m.registers[x] as int;
    let vy = m.registers[y] as int;
    let once = m.execute(Instruction::Draw { x, y, rows }, random);
    let twice = once.execute(Instruction::Draw { x, y, rows }, random);
    assert(once.sprite(rows) == sprite);
    law_draw_twice_restores(m, x, y, rows, random);
    if collides(m.display, sprite, vx, vy) {
        let (r, c) = choose|r: int, c: int|
            0 <= r < 32 && 0 <= c < 64 && #[trigger] m.display[r][c] && sprite_covers(
                sprite,
                vx,
                vy,
                r,
                c,
            );
        assert(false);
    }
    if collides(once.display, sprite, vx, vy) {
        let (r, c) = choose|r: int, c: int|
            0 <= r < 32 && 0 <= c < 64 && #[trigger] once.display[r][c] && sprite_covers(
                sprite,
                vx,
                vy,
                r,
                c,
            );
        assert(sprite_pixel(sprite, crate::display::sprite_row(vy, r), crate::display::sprite_column(vx, c)));
    }
    if exists|i: int, j: int| 0 <= i < rows && 0 <= j < 8 && #[trigger] sprite_pixel(sprite, i, j) {
        let (i, j) = choose|i: int, j: int|
            0 <= i < rows && 0 <= j < 8 && #[trigger] sprite_pixel(sprite, i, j);
        crate::display::lemma_sprite_covers(sprite, vx, vy, i, j);
        let r = (vy + i) % 32;
        let c = (vx + j) % 64;
        assert(sprite_covers(sprite, vx, vy, r, c));
        assert(!m.display[r][c]);
        assert(once.display[r][c]);
    }
}

/// `Fx0A` with no key held down changes nothing, however often it runs: the
/// program counter stays on the instruction.
pub proof fn law_wait_key_blocks(m: Machine, x: int, randoms: Seq<u8>)
    requires
        m.wf(),
        decode(m.opcode()) == Some(Instruction::WaitKey { x }),
        !any_pressed(m.keys),
    ensures
        m.run(randoms) == m,
    decreases randoms.len(),
{
    if randoms.len() > 0 {
        assert(m.step(randoms[0]) == m);
        law_wait_key_blocks(m, x, randoms.drop_first());
    }
}

/// `Fx0A` with a key held down puts the lowest such key in `Vx` and moves
/// on to the next instruction.
pub proof fn law_wait_key_takes_lowest(m: Machine, x: int, key: int, random: u8)
    requires
        m.wf(),
        0 <= x < 16,
        is_lowest_pressed(m.keys, key),
    ensures
        ({
            let after = m.execute(Instruction::WaitKey { x }, random);
            &&& after.registers[x] == key
            &&& after.pc == m.pc + 2
        }),
{
    assert(any_pressed(m.keys));
    let chosen = lowest_pressed(m.keys);
    assert(is_lowest_pressed(m.keys, chosen));
    assert(chosen == key);
}

/// `Fx33` writes three decimal digits that spell the value of `Vx`.
pub proof fn law_store_decimal_digits(m: Machine, x: int, random: u8)
    requires
        m.wf(),
        0 <= x < 16,
        m.index + 2 < 4096,
    ensures
        ({
            let after = m.execute(Instruction::StoreDecimal { x }, random);
            let hundreds = after.memory[m.index];
            let tens = after.memory[m.index + 1];
            let ones = after.memory[m.index + 2];
            &&& hundreds < 10 && tens < 10 && ones < 10
            &&& 100 * hundreds + 10 * tens + ones == m.registers[x]
        }),
{
}

/// With the font in memory, `Fx29` on a digit points the address register
/// at the five bytes of that digit's glyph.
pub proof fn law_glyph_lookup(m: Machine, x: int, random: u8)
    requires
        m.wf(),
        0 <= x < 16,
        m.registers[x] < 16,
    ensures
        ({
            let after = m.with_font().execute(Instruction::Glyph { x }, random);
            &&& after.index == glyph_address(m.registers[x] as int)
            &&& after.memory.subrange(after.index, after.index + 5) == glyph(
                m.registers[x] as int,
            )
        }),
{
    let after = m.with_font().execute(Instruction::Glyph { x }, random);
    assert(font_table().len() == 80);
    assert(after.memory.subrange(after.index, after.index + 5) =~= glyph(m.registers[x] as int));
}

/// A word that stands for no instruction changes nothing: the program
/// counter does not move past it.
pub proof fn law_unknown_opcode_halts(m: Machine, random: u8)
    requires
        decode(m.opcode()) is None,
    ensures
        m.step(random) == m,
{
}

/// Only `Cxnn` looks at the random byte.
pub proof fn law_random_byte_only_for_cxnn(m: Machine, first: u8, second: u8)
    requires
        !(decode(m.opcode()) matches Some(Instruction::Random { .. })),
    ensures
        m.step(first) == m.step(second),
{
}

/// A cycle that can run leaves a machine with the sizes of a machine: no
/// instruction makes memory, the registers, the keypad or the display grow
/// or shrink.
pub proof fn law_step_keeps_sizes(m: Machine, random: u8)
    requires
        m.wf(),
        m.can_step(),
    ensures
        m.step(random).wf(),
{
    crate::opcode::lemma_fields_by_mask(m.opcode());
}

/// A tick never raises a timer, and a timer at zero stays there.
pub proof fn law_tick_counts_down(m: Machine)
    ensures
        m.tick().delay_timer <= m.delay_timer,
        m.tick().sound_timer <= m.sound_timer,
        m.delay_timer == 0 ==> m.tick().delay_timer == 0,
        m.sound_timer == 0 ==> m.tick().sound_timer == 0,
        m.delay_timer > 0 ==> m.tick().delay_timer == m.delay_timer - 1,
        m.sound_timer > 0 ==> m.tick().sound_timer == m.sound_timer - 1,
{
}

/// No instruction touches the keypad: a cycle only reads it.
pub proof fn law_step_keeps_keys(m: Machine, random: u8)
    ensures
        m.step(random).keys == m.keys,
{
}

/// Only `00E0` and `Dxyn` change the display.
pub proof fn law_display_changes_by_clear_and_draw(m: Machine, random: u8)
    requires
        !(decode(m.opcode()) matches Some(Instruction::ClearScreen)),
        !(decode(m.opcode()) matches Some(Instruction::Draw { .. })),
    ensures
        m.step(random).display == m.display,
{
}

/// Only `Fx33` and `Fx55` write to memory.
pub proof fn law_memory_changes_by_stores(m: Machine, random: u8)
    requires
        !(decode(m.opcode()) matches Some(Instruction::StoreDecimal { .. })),
        !(decode(m.opcode()) matches Some(Instruction::StoreRegisters { .. })),
    ensures
        m.step(random).memory == m.memory,
{
}

/// Only `2nnn` and `00EE` change the call stack.
pub proof fn law_stack_changes_by_call_and_return(m: Machine, random: u8)
    requires
        !(decode(m.opcode()) matches Some(Instruction::Call { .. })),
        !(decode(m.opcode()) matches Some(Instruction::Return)),
    ensures
        m.step(random).stack == m.stack,
{
}

/// Every instruction but the jumps, the call, the return and a waiting
/// `Fx0A` leaves the program counter two or four bytes further on, and four
/// only where it is one of the six skips.
pub proof fn law_program_counter_advances(m: Machine, random: u8)
    requires
        decode(m.opcode()) is Some,
        !(decode(m.opcode()) matches Some(Instruction::Jump { .. })),
        !(decode(m.opcode()) matches Some(Instruction::JumpOffset { .. })),
        !(decode(m.opcode()) matches Some(Instruction::Call { .. })),
        !(decode(m.opcode()) matches Some(Instruction::Return)),
        !(decode(m.opcode()) matches Some(Instruction::WaitKey { .. })),
    ensures
        m.step(random).pc == m.pc + 2 || m.step(random).pc == m.pc + 4,
        m.step(random).pc == m.pc + 4 ==> (decode(m.opcode()) matches Some(instruction)
            && (instruction is SkipIfEqual || instruction is SkipIfNotEqual
            || instruction is SkipIfRegistersEqual || instruction is SkipIfRegistersDiffer
            || instruction is SkipIfKeyDown || instruction is SkipIfKeyUp)),
{
}

/// The list of lit cells holds the coordinates of lit cells only, and of
/// every one of them.
pub proof fn law_lit_cells_are_the_lit_ones(grid: Seq<Seq<bool>>)
    requires
        grid_wf(grid),
    ensures
        forall|k: int|
            0 <= k < lit_cells(grid).len() ==> {
                let cell = #[trigger] lit_cells(grid)[k];
                cell.0 < 64 && cell.1 < 32 && grid[cell.1 as int][cell.0 as int]
            },
        forall|x: usize, y: usize|
            x < 64 && y < 32 && grid[y as int][x as int] ==> lit_cells(grid).contains((x, y)),
{
    assert forall|k: int| 0 <= k < lit_cells(grid).len() implies {
        let cell = #[trigger] lit_cells(grid)[k];
        cell.0 < 64 && cell.1 < 32 && grid[cell.1 as int][cell.0 as int]
    } by {
        let cell = lit_cells(grid)[k];
        all_cells().lemma_filter_pred(is_lit(grid), k);
        assert(lit_cells(grid).contains(cell));
        all_cells().lemma_filter_contains_rev(is_lit(grid), cell);
        let at = choose|at: int| 0 <= at < all_cells().len() && all_cells()[at] == cell;
        assert(cell == ((at % 64) as usize, (at / 64) as usize));
    }
    assert forall|x: usize, y: usize| x < 64 && y < 32 && grid[y as int][x as int] implies lit_cells(
        grid,
    ).contains((x, y)) by {
        let at = 64 * y + x;
        assert(at / 64 == y && at % 64 == x);
        assert(all_cells()[at as int] == (x, y));
        all_cells().lemma_filter_contains(is_lit(grid), at as int);
    }
}

} // verus!
