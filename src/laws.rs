use vstd::prelude::*;

use crate::instruction::{
    decode_spec, family, lemma_decode_encode, low_byte, nibble_n, nibble_x, nibble_y, Instruction,
};
use crate::machine::{
    any_pressed, font_spec, initialized_machine, is_lowest_pressed, loaded_memory, sprite_covers,
    Fault, Machine, FLAG, FONT_SIZE, KEY_COUNT, MAX_ROM_SIZE, MEMORY_SIZE, PROGRAM_START, SCREEN_SIZE,
};

verus! {

/// Dispatch is total over the instruction set: every opcode that encodes an
/// instruction has exactly that instruction's effect, and none is reported as
/// unrecognized.
pub proof fn lemma_dispatch_total(m: Machine, i: Instruction, random: u8)
    requires
        i.wf(),
    ensures
        m.step(i.encode() as u16, random) == m.execute(i, random),
        m.step(i.encode() as u16, random) != Err::<Machine, Fault>(
            Fault::UnrecognizedOpcode(i.encode() as u16),
        ),
{
    lemma_decode_encode(i);
}

/// `7xkk` adds the immediate to `Vx` modulo 256 and never touches the flag
/// register (unless `Vx` is the flag register itself).
pub proof fn lemma_add_byte_wraps(m: Machine, opcode: u16, random: u8)
    requires
        m.wf(),
        family(opcode) == 7,
        nibble_x(opcode) != FLAG,
    ensures
        m.step(opcode, random) is Ok,
        m.step(opcode, random)->Ok_0.reg(nibble_x(opcode)) == (m.reg(nibble_x(opcode)) + low_byte(
            opcode,
        )) % 256,
        m.step(opcode, random)->Ok_0.registers[FLAG as int] == m.registers[FLAG as int],
{
}

/// `8xy4` sets the flag register to 1 exactly when the unsigned sum of `Vx`
/// and `Vy` exceeds 255, and leaves the sum modulo 256 in `Vx`.
pub proof fn lemma_add_register_carry(m: Machine, opcode: u16, random: u8)
    requires
        m.wf(),
        family(opcode) == 8,
        nibble_n(opcode) == 4,
    ensures
        ({
            let x = nibble_x(opcode);
            let y = nibble_y(opcode);
            let n = m.step(opcode, random)->Ok_0;
            &&& m.step(opcode, random) is Ok
            &&& n.registers[FLAG as int] == if m.reg(x) + m.reg(y) > 255 {
                1u8
            } else {
                0u8
            }
            &&& x != FLAG ==> n.reg(x) == (m.reg(x) + m.reg(y)) % 256
        }),
{
}

/// `8xy5` sets the flag register to 1 exactly when `Vx >= Vy` (no borrow),
/// and leaves the difference modulo 256 in `Vx`.
pub proof fn lemma_sub_register_borrow(m: Machine, opcode: u16, random: u8)
    requires
        m.wf(),
        family(opcode) == 8,
        nibble_n(opcode) == 5,
    ensures
        ({
            let x = nibble_x(opcode);
            let y = nibble_y(opcode);
            let n = m.step(opcode, random)->Ok_0;
            &&& m.step(opcode, random) is Ok
            &&& n.registers[FLAG as int] == if m.reg(x) >= m.reg(y) {
                1u8
            } else {
                0u8
            }
            &&& x != FLAG ==> n.reg(x) == (m.reg(x) - m.reg(y)) % 256
        }),
{
    let x = nibble_x(opcode);
    let y = nibble_y(opcode);
    assert(decode_spec(opcode) == Some(Instruction::SubRegister { x, y }));
    let a = m.reg(x) as int;
    let b = m.reg(y) as int;
    assert((a + 256 - b) % 256 == (a - b) % 256) by (nonlinear_arith)
        requires
            0 <= a < 256,
            0 <= b < 256,
    ;
}

/// `8xy6` and `8xyE` leave in the flag register the bit that the shift moves
/// out of `Vx`: its lowest bit for a right shift, its highest for a left one.
pub proof fn lemma_shift_flag(m: Machine, opcode: u16, random: u8)
    requires
        m.wf(),
        family(opcode) == 8,
        nibble_n(opcode) == 6 || nibble_n(opcode) == 0xE,
        nibble_x(opcode) != FLAG,
    ensures
        ({
            let x = nibble_x(opcode);
            let n = m.step(opcode, random)->Ok_0;
            &&& m.step(opcode, random) is Ok
            &&& nibble_n(opcode) == 6 ==> n.registers[FLAG as int] == m.reg(x) % 2 && n.reg(x)
                == m.reg(x) / 2
            &&& nibble_n(opcode) == 0xE ==> n.registers[FLAG as int] == m.reg(x) / 128 && n.reg(x)
                == (m.reg(x) * 2) % 256
        }),
{
}

/// Drawing a sprite twice at the same place restores the framebuffer, and the
/// second draw reports a collision exactly when the first lit some pixel,
/// that is when the sprite covers a pixel that was dark before. The sprite's
/// coordinates must not sit in the flag register, which the first draw
/// overwrites.
pub proof fn lemma_draw_twice_restores(m: Machine, opcode: u16, random: u8)
    requires
        m.wf(),
        family(opcode) == 0xD,
        nibble_x(opcode) != FLAG,
        nibble_y(opcode) != FLAG,
        m.step(opcode, random) is Ok,
    ensures
        ({
            let vx = m.reg(nibble_x(opcode)) as int;
            let vy = m.reg(nibble_y(opcode)) as int;
            let h = nibble_n(opcode) as int;
            let once = m.step(opcode, random)->Ok_0;
            let twice = once.step(opcode, random)->Ok_0;
            &&& once.step(opcode, random) is Ok
            &&& twice.screen == m.screen
            &&& twice.registers[FLAG as int] == if exists|p: int|
                0 <= p < SCREEN_SIZE && #[trigger] sprite_covers(m.memory, m.index as int, vx, vy, h, p)
                    && m.screen[p] == 0 {
                1u8
            } else {
                0u8
            }
        }),
{
    let x = nibble_x(opcode);
    let y = nibble_y(opcode);
    let vx = m.reg(x) as int;
    let vy = m.reg(y) as int;
    let h = nibble_n(opcode) as int;
    let once = m.step(opcode, random)->Ok_0;
    assert(once.reg(x) == m.reg(x) && once.reg(y) == m.reg(y));
    let twice = once.step(opcode, random)->Ok_0;
    assert forall|p: int| 0 <= p < SCREEN_SIZE implies #[trigger] twice.screen[p] == m.screen[p] by {
        assert(m.screen[p] <= 1);
    }
    assert(twice.screen =~= m.screen);
    let lit_again = exists|p: int|
        0 <= p < SCREEN_SIZE && #[trigger] sprite_covers(once.memory, once.index as int, vx, vy, h, p)
            && once.screen[p] != 0;
    let was_dark = exists|p: int|
        0 <= p < SCREEN_SIZE && #[trigger] sprite_covers(m.memory, m.index as int, vx, vy, h, p)
            && m.screen[p] == 0;
    if lit_again {
        let w = choose|p: int|
            0 <= p < SCREEN_SIZE && #[trigger] sprite_covers(once.memory, once.index as int, vx, vy, h, p)
                && once.screen[p] != 0;
        assert(sprite_covers(m.memory, m.index as int, vx, vy, h, w) && m.screen[w] == 0);
    }
    if was_dark {
        let w = choose|p: int|
            0 <= p < SCREEN_SIZE && #[trigger] sprite_covers(m.memory, m.index as int, vx, vy, h, p)
                && m.screen[p] == 0;
        assert(sprite_covers(once.memory, once.index as int, vx, vy, h, w) && once.screen[w] != 0);
    }
}

/// The state right after a reset and a load of `rom`.
pub open spec fn loaded_machine(rom: Seq<u8>) -> Machine {
    Machine { memory: loaded_memory(initialized_machine().memory, rom), ..initialized_machine() }
}

/// After a reset and a load, the first opcode fetched is the program's first
/// two bytes, most significant first.
pub proof fn lemma_fetch_after_load(rom: Seq<u8>)
    requires
        2 <= rom.len() <= MAX_ROM_SIZE,
    ensures
        loaded_machine(rom).fetch() == rom[0] as int * 256 + rom[1] as int,
{
    let m = loaded_machine(rom);
    assert(m.memory[PROGRAM_START as int] == rom[0]);
    assert(m.memory[PROGRAM_START + 1] == rom[1]);
}

/// Loading a program never touches memory below `PROGRAM_START`: after a
/// reset the font stays at address 0 and the rest of that area stays zero,
/// whatever the program holds.
pub proof fn lemma_load_keeps_reserved(rom: Seq<u8>)
    requires
        rom.len() <= MAX_ROM_SIZE,
    ensures
        loaded_machine(rom).memory.subrange(0, FONT_SIZE as int) == font_spec(),
        forall|a: int| FONT_SIZE <= a < PROGRAM_START ==> #[trigger] loaded_machine(rom).memory[a] == 0,
{
    assert(loaded_machine(rom).memory.subrange(0, FONT_SIZE as int) =~= font_spec());
}

/// Some key is the lowest pressed one once key `k` is pressed.
proof fn lemma_lowest_pressed_exists(keys: Seq<bool>, k: int)
    requires
        0 <= k < KEY_COUNT,
        keys[k],
    ensures
        exists|j: int| is_lowest_pressed(keys, j),
    decreases k,
{
    if exists|j: int| 0 <= j < k && keys[j] {
        let j = choose|j: int| 0 <= j < k && keys[j];
        lemma_lowest_pressed_exists(keys, j);
    } else {
        assert(is_lowest_pressed(keys, k));
    }
}

/// A cycle on `Fx0A` with no key pressed leaves the program counter and `Vx`
/// as they were, along with memory and keypad, so the next cycle runs the
/// same instruction again. With some key pressed, the lowest such key goes
/// to `Vx` and the program counter moves past the instruction.
pub proof fn lemma_wait_key_cycle(m: Machine, random: u8)
    requires
        m.wf(),
        m.pc + 1 < MEMORY_SIZE,
        family(m.fetch()) == 0xF,
        low_byte(m.fetch()) == 0x0A,
    ensures
        ({
            let x = nibble_x(m.fetch());
            let next = m.cycle(random)->Ok_0.0;
            &&& m.cycle(random) is Ok
            &&& next.memory == m.memory
            &&& next.keys == m.keys
            &&& !any_pressed(m.keys) ==> next.pc == m.pc && next.reg(x) == m.reg(x)
            &&& forall|k: int| #[trigger] is_lowest_pressed(m.keys, k) ==> next.reg(x) == k && next.pc
                == m.pc + 2
        }),
{
    let x = nibble_x(m.fetch());
    assert(decode_spec(m.fetch()) == Some(Instruction::WaitKey { x }));
    if any_pressed(m.keys) {
        let c = choose|k: int| is_lowest_pressed(m.keys, k);
        let k0 = choose|k: int| 0 <= k < 16 && m.keys[k];
        lemma_lowest_pressed_exists(m.keys, k0);
        assert forall|k: int| #[trigger] is_lowest_pressed(m.keys, k) implies k == c by {
            if k < c {
                assert(!m.keys[k]);
            }
            if c < k {
                assert(!m.keys[c]);
            }
        }
    }
}

/// `00E0` blanks the whole framebuffer and asks for a redraw, whatever was
/// drawn before.
pub proof fn lemma_clear_screen(m: Machine, random: u8)
    requires
        m.wf(),
    ensures
        m.step(0x00E0, random) is Ok,
        forall|p: int| 0 <= p < SCREEN_SIZE ==> #[trigger] m.step(0x00E0, random)->Ok_0.screen[p] == 0,
        m.step(0x00E0, random)->Ok_0.should_draw,
{
}

} // verus!
