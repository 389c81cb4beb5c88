use vstd::prelude::*;

use crate::instruction::{decode, lemma_encode_decode, Instruction};
use crate::machine::{
    blank_machine, collides, drawn_screen, follows, font_spec, initialized_machine,
    is_lowest_pressed, loaded_memory, sprite_bit, sprite_covers, toggled, Fault, Machine, FLAG,
    FONT_SIZE, KEY_COUNT, MAX_ROM_SIZE, MEMORY_SIZE, PROGRAM_START, REGISTER_COUNT, SCREEN_COLS,
    SCREEN_ROWS, SCREEN_SIZE, STACK_DEPTH,
};

verus! {

/// The virtual machine: memory, registers, stack, timers, keypad and
/// framebuffer.
pub struct Cpu {
    memory: [u8; MEMORY_SIZE],
    registers: [u8; REGISTER_COUNT],
    index: u16,
    pc: u16,
    screen: [u8; SCREEN_SIZE],
    delay_timer: u8,
    sound_timer: u8,
    stack: [u16; STACK_DEPTH],
    sp: u16,
    keys: [bool; KEY_COUNT],
    should_draw: bool,
}

impl View for Cpu {
    type V = Machine;

    closed spec fn view(&self) -> Machine {
        Machine {
            memory: self.memory@,
            registers: self.registers@,
            index: self.index,
            pc: self.pc,
            screen: self.screen@,
            delay_timer: self.delay_timer,
            sound_timer: self.sound_timer,
            stack: self.stack@,
            sp: self.sp,
            keys: self.keys@,
            should_draw: self.should_draw,
        }
    }
}

/// The glyphs of the hexadecimal digits, as installed at address 0.
fn font() -> (r: [u8; FONT_SIZE])
    ensures
        r@ == font_spec(),
{
    let r: [u8; FONT_SIZE] = [
        0xF0, 0x90, 0x90, 0x90, 0xF0, // 0
        0x20, 0x60, 0x20, 0x20, 0x70, // 1
        0xF0, 0x10, 0xF0, 0x80, 0xF0, // 2
        0xF0, 0x10, 0xF0, 0x10, 0xF0, // 3
        0x90, 0x90, 0xF0, 0x10, 0x10, // 4
        0xF0, 0x80, 0xF0, 0x10, 0xF0, // 5
        0xF0, 0x80, 0xF0, 0x90, 0xF0, // 6
        0xF0, 0x10, 0x20, 0x40, 0x40, // 7
        0xF0, 0x90, 0xF0, 0x90, 0xF0, // 8
        0xF0, 0x90, 0xF0, 0x10, 0xF0, // 9
        0xF0, 0x90, 0xF0, 0x90, 0x90, // A
        0xE0, 0x90, 0xE0, 0x90, 0xE0, // B
        0xF0, 0x80, 0x80, 0x80, 0xF0, // C
        0xE0, 0x90, 0x90, 0x90, 0xE0, // D
        0xF0, 0x80, 0xF0, 0x80, 0xF0, // E
        0xF0, 0x80, 0xF0, 0x80, 0x80, // F
    ];
    assert(r@ =~= font_spec());
    r
}

/// Whether the draw in progress has reached pixel `p` with a set bit: rows
/// before `row`, and columns before `col` in row `row`.
spec fn drawn_so_far(memory: Seq<u8>, index: int, vx: int, vy: int, row: int, col: int, p: int) -> bool {
    ||| sprite_covers(memory, index, vx, vy, row, p)
    ||| (p / SCREEN_COLS as int - vy == row && 0 <= p % (SCREEN_COLS as int) - vx < col
        && sprite_bit(memory[index + row], p % SCREEN_COLS as int - vx))
}

/// Whether the draw in progress has reached pixel `p` while it was lit.
spec fn hit_lit(m: Machine, vx: int, vy: int, row: int, col: int, p: int) -> bool {
    &&& 0 <= p < SCREEN_SIZE
    &&& drawn_so_far(m.memory, m.index as int, vx, vy, row, col, p)
    &&& m.screen[p] != 0
}

proof fn lemma_pixel_split(p: int)
    requires
        0 <= p < SCREEN_SIZE,
    ensures
        p == (p / SCREEN_COLS as int) * SCREEN_COLS as int + p % SCREEN_COLS as int,
        0 <= p / (SCREEN_COLS as int) < SCREEN_ROWS,
        0 <= p % (SCREEN_COLS as int) < SCREEN_COLS,
{
}

proof fn lemma_pixel_join(r: int, c: int)
    requires
        0 <= r < SCREEN_ROWS,
        0 <= c < SCREEN_COLS,
    ensures
        0 <= r * SCREEN_COLS as int + c < SCREEN_SIZE,
        (r * SCREEN_COLS as int + c) / SCREEN_COLS as int == r,
        (r * SCREEN_COLS as int + c) % SCREEN_COLS as int == c,
{
    assert(0 <= r * 64 + c < 2048) by (nonlinear_arith)
        requires
            0 <= r < 32,
            0 <= c < 64,
    ;
}

impl Cpu {
    /// Whether this machine's state has the shape every reachable state has.
    pub open spec fn wf(&self) -> bool {
        self@.wf()
    }

    /// A machine with every byte, register and flag zero; `initialize` makes
    /// it runnable.
    pub fn new() -> (r: Cpu)
        ensures
            r@ == blank_machine(),
            r.wf(),
    {
        let r = Cpu {
            memory: [0u8; 4096],
            registers: [0u8; 16],
            index: 0,
            pc: 0,
            screen: [0u8; 2048],
            delay_timer: 0,
            sound_timer: 0,
            stack: [0u16; 16],
            sp: 0,
            keys: [false; 16],
            should_draw: false,
        };
        assert(r@.memory =~= blank_machine().memory);
        assert(r@.registers =~= blank_machine().registers);
        assert(r@.screen =~= blank_machine().screen);
        assert(r@.stack =~= blank_machine().stack);
        assert(r@.keys =~= blank_machine().keys);
        r
    }

    /// Resets the machine: clears memory, registers, stack, keypad, timers and
    /// framebuffer, installs the font at address 0 and points the program
    /// counter at `PROGRAM_START`.
    pub fn initialize(&mut self)
        ensures
            final(self)@ == initialized_machine(),
            final(self).wf(),
    {
        self.memory = [0u8; 4096];
        let glyphs = font();
        let mut i: usize = 0;
        while i < FONT_SIZE
            invariant
                i <= FONT_SIZE,
                glyphs@ == font_spec(),
                forall|a: int| 0 <= a < MEMORY_SIZE ==> #[trigger] self.memory@[a] == if a < i {
                    font_spec()[a]
                } else {
                    0u8
                },
            decreases FONT_SIZE - i,
        {
            self.memory[i] = glyphs[i];
            i += 1;
        }
        self.registers = [0u8; 16];
        self.index = 0;
        self.pc = PROGRAM_START as u16;
        self.clear_screen();
        self.delay_timer = 0;
        self.sound_timer = 0;
        self.stack = [0u16; 16];
        self.sp = 0;
        self.keys = [false; 16];
        self.should_draw = false;
        assert(self@.memory =~= initialized_machine().memory);
        assert(self@.registers =~= initialized_machine().registers);
        assert(self@.stack =~= initialized_machine().stack);
        assert(self@.keys =~= initialized_machine().keys);
    }

    fn clear_screen(&mut self)
        ensures
            final(self)@ == (Machine {
                screen: Seq::new(SCREEN_SIZE as nat, |p: int| 0u8),
                should_draw: true,
                ..old(self)@
            }),
    {
        self.screen = [0u8; 2048];
        self.should_draw = true;
        assert(self@.screen =~= Seq::new(SCREEN_SIZE as nat, |p: int| 0u8));
    }

    /// Copies `rom` into memory from `PROGRAM_START`; a program too large for
    /// program memory is refused and nothing is written.
    pub fn load_rom(&mut self, rom: &[u8]) -> (r: Result<(), Fault>)
        requires
            old(self).wf(),
        ensures
            final(self).wf(),
            rom@.len() <= MAX_ROM_SIZE ==> r == Ok::<(), Fault>(()) && final(self)@ == (Machine {
                memory: loaded_memory(old(self)@.memory, rom@),
                ..old(self)@
            }),
            rom@.len() > MAX_ROM_SIZE ==> r == Err::<(), Fault>(Fault::RomTooLarge(rom@.len() as usize))
                && final(self)@ == old(self)@,
    {
        if rom.len() > MAX_ROM_SIZE {
            return Err(Fault::RomTooLarge(rom.len()));
        }
        let mut i: usize = 0;
        while i < rom.len()
            invariant
                i <= rom@.len() <= MAX_ROM_SIZE,
                self@ == (Machine { memory: self@.memory, ..old(self)@ }),
                self@.memory.len() == MEMORY_SIZE,
                forall|a: int| 0 <= a < MEMORY_SIZE ==> #[trigger] self@.memory[a] == if PROGRAM_START <= a
                    < PROGRAM_START + i {
                    rom@[a - PROGRAM_START]
                } else {
                    old(self)@.memory[a]
                },
            decreases rom@.len() - i,
        {
            self.memory[PROGRAM_START + i] = rom[i];
            i += 1;
        }
        assert(self@.memory =~= loaded_memory(old(self)@.memory, rom@));
        Ok(())
    }

    fn set_register(&mut self, x: u8, v: u8)
        requires
            x < REGISTER_COUNT,
        ensures
            final(self)@ == old(self)@.with_reg(x, v),
    {
        self.registers[x as usize] = v;
    }

    fn jump_to(&mut self, target: usize) -> (r: Result<(), Fault>)
        ensures
            follows(old(self)@, final(self)@, r, old(self)@.jump_to(target as int)),
    {
        if target > MEMORY_SIZE {
            Err(Fault::OutOfBounds(target))
        } else {
            self.pc = target as u16;
            Ok(())
        }
    }

    fn skip_if(&mut self, cond: bool) -> (r: Result<(), Fault>)
        ensures
            follows(old(self)@, final(self)@, r, old(self)@.skip_if(cond)),
    {
        if cond {
            self.jump_to(self.pc as usize + 2)
        } else {
            Ok(())
        }
    }

    /// Whether `len` bytes from the index register run past the end of memory.
    fn block_out_of_bounds(&self, len: usize) -> (r: bool)
        requires
            len <= REGISTER_COUNT,
        ensures
            r == self@.block_out_of_bounds(len as int),
    {
        len > 0 && self.index as usize + len > MEMORY_SIZE
    }

    /// The sprite draw `Dxyn`.
    fn draw(&mut self, x: u8, y: u8, height: u8) -> (r: Result<(), Fault>)
        requires
            old(self).wf(),
            x < REGISTER_COUNT,
            y < REGISTER_COUNT,
            height < 16,
        ensures
            follows(old(self)@, final(self)@, r, old(self)@.draw(x, y, height)),
    {
        let vx = self.registers[x as usize] as usize;
        let vy = self.registers[y as usize] as usize;
        let h = height as usize;
        if self.block_out_of_bounds(h) {
            return Err(Fault::OutOfBounds(self.index as usize + h - 1));
        }
        let ghost before = self@;
        let index = self.index as usize;
        let mut collided = false;
        let mut row: usize = 0;
        while row < h
            invariant
                row <= h < 16,
                before == old(self)@,
                before.wf(),
                vx == before.reg(x),
                vy == before.reg(y),
                index == before.index,
                h > 0 ==> index + h <= MEMORY_SIZE,
                self@ == (Machine { screen: self@.screen, ..before }),
                self@.screen.len() == SCREEN_SIZE,
                forall|p: int|
                    0 <= p < SCREEN_SIZE ==> #[trigger] self@.screen[p] == if sprite_covers(
                        before.memory,
                        index as int,
                        vx as int,
                        vy as int,
                        row as int,
                        p,
                    ) {
                        toggled(before.screen[p])
                    } else {
                        before.screen[p]
                    },
                collided == exists|p: int| #[trigger] hit_lit(before, vx as int, vy as int, row as int, 0, p),
            decreases h - row,
        {
            let bits = self.memory[index + row];
            let mut col: usize = 0;
            while col < 8
                invariant
                    row < h < 16,
                    col <= 8,
                    before == old(self)@,
                    before.wf(),
                    vx == before.reg(x),
                    vy == before.reg(y),
                    index == before.index,
                    index + h <= MEMORY_SIZE,
                    bits == before.memory[index + row],
                    self@ == (Machine { screen: self@.screen, ..before }),
                    self@.screen.len() == SCREEN_SIZE,
                    forall|p: int|
                        0 <= p < SCREEN_SIZE ==> #[trigger] self@.screen[p] == if drawn_so_far(
                            before.memory,
                            index as int,
                            vx as int,
                            vy as int,
                            row as int,
                            col as int,
                            p,
                        ) {
                            toggled(before.screen[p])
                        } else {
                            before.screen[p]
                        },
                    collided == exists|p: int|
                        #[trigger] hit_lit(before, vx as int, vy as int, row as int, col as int, p),
                decreases 8 - col,
            {
                let on_grid = vy + row < SCREEN_ROWS && vx + col < SCREEN_COLS;
                let set = bits & (0x80u8 >> col as u8) != 0;
                let ghost was_collided = collided;
                let ghost screen_before = self@.screen;
                let ghost p0 = (vy + row) * SCREEN_COLS + vx + col;
                if on_grid && set {
                    let p = (vy + row) * SCREEN_COLS + vx + col;
                    proof {
                        lemma_pixel_join((vy + row) as int, (vx + col) as int);
                    }
                    let pixel = self.screen[p];
                    if pixel != 0 {
                        collided = true;
                    }
                    self.screen[p] = if pixel == 0 { 1 } else { 0 };
                }
                proof {
                    if on_grid {
                        lemma_pixel_join((vy + row) as int, (vx + col) as int);
                    }
                    assert forall|p: int| 0 <= p < SCREEN_SIZE implies
                        drawn_so_far(before.memory, index as int, vx as int, vy as int, row as int, col + 1, p)
                        == (drawn_so_far(before.memory, index as int, vx as int, vy as int, row as int, col as int, p)
                        || (on_grid && set && p == p0)) by {
                        lemma_pixel_split(p);
                    }
                    if was_collided {
                        let w = choose|p: int| #[trigger] hit_lit(before, vx as int, vy as int, row as int, col as int, p);
                        assert(hit_lit(before, vx as int, vy as int, row as int, col + 1, w));
                    }
                    if on_grid && set && before.screen[p0] != 0 {
                        assert(hit_lit(before, vx as int, vy as int, row as int, col + 1, p0));
                    }
                    if on_grid && set {
                        assert(!drawn_so_far(before.memory, index as int, vx as int, vy as int, row as int, col as int, p0));
                        assert(screen_before[p0] == before.screen[p0]);
                    }
                    if !collided {
                        assert forall|w: int| !#[trigger] hit_lit(before, vx as int, vy as int, row as int, col + 1, w) by {
                            if hit_lit(before, vx as int, vy as int, row as int, col + 1, w) {
                                lemma_pixel_split(w);
                                if w != p0 || !(on_grid && set) {
                                    assert(hit_lit(before, vx as int, vy as int, row as int, col as int, w));
                                }
                            }
                        }
                    }
                }
                col += 1;
            }
            proof {
                assert forall|p: int| 0 <= p < SCREEN_SIZE implies
                    drawn_so_far(before.memory, index as int, vx as int, vy as int, row as int, 8, p)
                    == sprite_covers(before.memory, index as int, vx as int, vy as int, row + 1, p) by {
                    lemma_pixel_split(p);
                }
                if collided {
                    let w = choose|p: int| #[trigger] hit_lit(before, vx as int, vy as int, row as int, 8, p);
                    assert(hit_lit(before, vx as int, vy as int, row + 1, 0, w));
                }
                if exists|p: int| #[trigger] hit_lit(before, vx as int, vy as int, row + 1, 0, p) {
                    let w = choose|p: int| #[trigger] hit_lit(before, vx as int, vy as int, row + 1, 0, p);
                    assert(hit_lit(before, vx as int, vy as int, row as int, 8, w));
                }
            }
            row += 1;
        }
        proof {
            if collided {
                let w = choose|p: int| #[trigger] hit_lit(before, vx as int, vy as int, h as int, 0, p);
                assert(sprite_covers(before.memory, before.index as int, vx as int, vy as int, h as int, w));
            }
            if collides(before, vx as int, vy as int, h as int) {
                let w = choose|p: int|
                    0 <= p < SCREEN_SIZE && #[trigger] sprite_covers(before.memory, before.index as int, vx as int, vy as int, h as int, p)
                        && before.screen[p] != 0;
                assert(hit_lit(before, vx as int, vy as int, h as int, 0, w));
            }
        }
        self.registers[FLAG] = if collided { 1 } else { 0 };
        self.should_draw = true;
        assert(self@.screen =~= drawn_screen(before, vx as int, vy as int, h as int));
        Ok(())
    }

    /// The key wait `Fx0A`: latches the lowest pressed key, or steps the
    /// program counter back so that the instruction runs again next cycle.
    fn wait_key(&mut self, x: u8) -> (r: Result<(), Fault>)
        requires
            old(self).wf(),
            x < REGISTER_COUNT,
        ensures
            follows(old(self)@, final(self)@, r, old(self)@.execute(Instruction::WaitKey { x }, 0)),
    {
        let mut k: usize = 0;
        while k < KEY_COUNT && !self.keys[k]
            invariant
                k <= KEY_COUNT,
                self.wf(),
                forall|j: int| 0 <= j < k ==> !self@.keys[j],
            decreases KEY_COUNT - k,
        {
            k += 1;
        }
        if k < KEY_COUNT {
            proof {
                let keys = self@.keys;
                assert(is_lowest_pressed(keys, k as int));
                let c = choose|c: int| is_lowest_pressed(keys, c);
                assert(c == k);
            }
            self.registers[x as usize] = k as u8;
            Ok(())
        } else if self.pc < 2 {
            Err(Fault::OutOfBounds(self.pc as usize))
        } else {
            self.pc = self.pc - 2;
            Ok(())
        }
    }

    /// `Fx33`: the decimal digits of `Vx` at the index register.
    fn store_decimal(&mut self, x: u8) -> (r: Result<(), Fault>)
        requires
            old(self).wf(),
            x < REGISTER_COUNT,
        ensures
            follows(old(self)@, final(self)@, r, old(self)@.execute(Instruction::StoreDecimal { x }, 0)),
    {
        if self.block_out_of_bounds(3) {
            return Err(Fault::OutOfBounds(self.index as usize + 2));
        }
        let v = self.registers[x as usize];
        let i = self.index as usize;
        self.memory[i] = v / 100;
        self.memory[i + 1] = (v / 10) % 10;
        self.memory[i + 2] = v % 10;
        Ok(())
    }

    /// `Fx55`: copies `V0` to `Vx` into memory at the index register.
    fn store_registers(&mut self, x: u8) -> (r: Result<(), Fault>)
        requires
            old(self).wf(),
            x < REGISTER_COUNT,
        ensures
            follows(old(self)@, final(self)@, r, old(self)@.execute(Instruction::StoreRegisters { x }, 0)),
    {
        let len = x as usize + 1;
        if self.block_out_of_bounds(len) {
            return Err(Fault::OutOfBounds(self.index as usize + len - 1));
        }
        let index = self.index as usize;
        let mut i: usize = 0;
        while i < len
            invariant
                i <= len <= REGISTER_COUNT,
                index + len <= MEMORY_SIZE,
                index == old(self)@.index,
                old(self).wf(),
                self@ == (Machine { memory: self@.memory, ..old(self)@ }),
                self@.memory.len() == MEMORY_SIZE,
                forall|a: int|
                    0 <= a < MEMORY_SIZE ==> #[trigger] self@.memory[a] == if index <= a < index + i {
                        old(self)@.registers[a - index]
                    } else {
                        old(self)@.memory[a]
                    },
            decreases len - i,
        {
            self.memory[index + i] = self.registers[i];
            i += 1;
        }
        proof {
            let expected = old(self)@.execute(Instruction::StoreRegisters { x }, 0);
            assert(self@.memory =~= expected->Ok_0.memory);
        }
        Ok(())
    }

    /// `Fx65`: fills `V0` to `Vx` from memory at the index register.
    fn load_registers(&mut self, x: u8) -> (r: Result<(), Fault>)
        requires
            old(self).wf(),
            x < REGISTER_COUNT,
        ensures
            follows(old(self)@, final(self)@, r, old(self)@.execute(Instruction::LoadRegisters { x }, 0)),
    {
        let len = x as usize + 1;
        if self.block_out_of_bounds(len) {
            return Err(Fault::OutOfBounds(self.index as usize + len - 1));
        }
        let index = self.index as usize;
        let mut i: usize = 0;
        while i < len
            invariant
                i <= len <= REGISTER_COUNT,
                index + len <= MEMORY_SIZE,
                index == old(self)@.index,
                old(self).wf(),
                self@ == (Machine { registers: self@.registers, ..old(self)@ }),
                self@.registers.len() == REGISTER_COUNT,
                forall|j: int|
                    0 <= j < REGISTER_COUNT ==> #[trigger] self@.registers[j] == if j < i {
                        old(self)@.memory[index + j]
                    } else {
                        old(self)@.registers[j]
                    },
            decreases len - i,
        {
            self.registers[i] = self.memory[index + i];
            i += 1;
        }
        proof {
            let expected = old(self)@.execute(Instruction::LoadRegisters { x }, 0);
            assert(self@.registers =~= expected->Ok_0.registers);
        }
        Ok(())
    }

    /// Carries out one decoded instruction.
    fn execute(&mut self, instruction: Instruction, random: u8) -> (r: Result<(), Fault>)
        requires
            old(self).wf(),
            instruction.wf(),
        ensures
            final(self).wf(),
            follows(old(self)@, final(self)@, r, old(self)@.execute(instruction, random)),
    {
        match instruction {
            Instruction::ClearScreen => {
                self.clear_screen();
                Ok(())
            },
            Instruction::Return => {
                if self.sp == 0 {
                    return Err(Fault::StackUnderflow);
                }
                self.sp = self.sp - 1;
                self.pc = self.stack[self.sp as usize];
                Ok(())
            },
            Instruction::Jump { addr } => self.jump_to(addr as usize),
            Instruction::Call { addr } => {
                if self.sp as usize >= STACK_DEPTH {
                    return Err(Fault::StackOverflow);
                }
                self.stack[self.sp as usize] = self.pc;
                self.sp = self.sp + 1;
                self.pc = addr;
                Ok(())
            },
            Instruction::SkipIfEqualByte { x, byte } => self.skip_if(self.registers[x as usize] == byte),
            Instruction::SkipIfNotEqualByte { x, byte } => self.skip_if(
                self.registers[x as usize] != byte,
            ),
            Instruction::SkipIfEqualRegister { x, y } => self.skip_if(
                self.registers[x as usize] == self.registers[y as usize],
            ),
            Instruction::LoadByte { x, byte } => {
                self.set_register(x, byte);
                Ok(())
            },
            Instruction::AddByte { x, byte } => {
                let sum = self.registers[x as usize] as u16 + byte as u16;
                self.set_register(x, (sum % 256) as u8);
                Ok(())
            },
            Instruction::Move { x, y } => {
                let vy = self.registers[y as usize];
                self.set_register(x, vy);
                Ok(())
            },
            Instruction::Or { x, y } => {
                let v = self.registers[x as usize] | self.registers[y as usize];
                self.set_register(x, v);
                Ok(())
            },
            Instruction::And { x, y } => {
                let v = self.registers[x as usize] & self.registers[y as usize];
                self.set_register(x, v);
                Ok(())
            },
            Instruction::Xor { x, y } => {
                let v = self.registers[x as usize] ^ self.registers[y as usize];
                self.set_register(x, v);
                Ok(())
            },
            Instruction::AddRegister { x, y } => {
                let sum = self.registers[x as usize] as u16 + self.registers[y as usize] as u16;
                self.set_register(x, (sum % 256) as u8);
                self.registers[FLAG] = if sum > 255 { 1 } else { 0 };
                Ok(())
            },
            Instruction::SubRegister { x, y } => {
                let vx = self.registers[x as usize];
                let vy = self.registers[y as usize];
                self.set_register(x, ((vx as u16 + 256 - vy as u16) % 256) as u8);
                self.registers[FLAG] = if vx >= vy { 1 } else { 0 };
                Ok(())
            },
            Instruction::ShiftRight { x, y: _ } => {
                let vx = self.registers[x as usize];
                self.registers[FLAG] = vx % 2;
                self.set_register(x, vx / 2);
                Ok(())
            },
            Instruction::SubReversed { x, y } => {
                let vx = self.registers[x as usize];
                let vy = self.registers[y as usize];
                self.set_register(x, ((vy as u16 + 256 - vx as u16) % 256) as u8);
                self.registers[FLAG] = if vy >= vx { 1 } else { 0 };
                Ok(())
            },
            Instruction::ShiftLeft { x, y: _ } => {
                let vx = self.registers[x as usize];
                self.registers[FLAG] = vx / 128;
                self.set_register(x, ((vx as u16 * 2) % 256) as u8);
                Ok(())
            },
            Instruction::SkipIfNotEqualRegister { x, y } => self.skip_if(
                self.registers[x as usize] != self.registers[y as usize],
            ),
            Instruction::LoadIndex { addr } => {
                self.index = addr;
                Ok(())
            },
            Instruction::JumpOffset { addr } => self.jump_to(self.registers[0] as usize + addr as usize),
            Instruction::Random { x, byte } => {
                self.set_register(x, random & byte);
                Ok(())
            },
            Instruction::Draw { x, y, height } => self.draw(x, y, height),
            Instruction::SkipIfKey { x } => {
                let key = self.registers[x as usize];
                if key as usize >= KEY_COUNT {
                    return Err(Fault::InvalidKey(key));
                }
                self.skip_if(self.keys[key as usize])
            },
            Instruction::SkipIfNotKey { x } => {
                let key = self.registers[x as usize];
                if key as usize >= KEY_COUNT {
                    return Err(Fault::InvalidKey(key));
                }
                self.skip_if(!self.keys[key as usize])
            },
            Instruction::LoadDelay { x } => {
                let delay = self.delay_timer;
                self.set_register(x, delay);
                Ok(())
            },
            Instruction::WaitKey { x } => self.wait_key(x),
            Instruction::SetDelay { x } => {
                self.delay_timer = self.registers[x as usize];
                Ok(())
            },
            Instruction::SetSound { x } => {
                self.sound_timer = self.registers[x as usize];
                Ok(())
            },
            Instruction::AddIndex { x } => {
                self.index = ((self.index as u32 + self.registers[x as usize] as u32) % 0x10000) as u16;
                Ok(())
            },
            Instruction::LoadGlyph { x } => {
                self.index = self.registers[x as usize] as u16 * 5;
                Ok(())
            },
            Instruction::StoreDecimal { x } => self.store_decimal(x),
            Instruction::StoreRegisters { x } => self.store_registers(x),
            Instruction::LoadRegisters { x } => self.load_registers(x),
        }
    }

    /// Dispatches one opcode against the current state. `random` is the byte
    /// that `Cxkk` masks; the host draws it from a uniform source. On a fault
    /// the machine is left unchanged.
    pub fn process_opcode(&mut self, opcode: u16, random: u8) -> (r: Result<(), Fault>)
        requires
            old(self).wf(),
        ensures
            final(self).wf(),
            follows(old(self)@, final(self)@, r, old(self)@.step(opcode, random)),
    {
        proof {
            lemma_encode_decode(opcode);
        }
        match decode(opcode) {
            Some(instruction) => self.execute(instruction, random),
            None => Err(Fault::UnrecognizedOpcode(opcode)),
        }
    }

    /// The opcode at the program counter: the byte there and the next one,
    /// most significant first.
    pub fn fetch_opcode(&self) -> (r: u16)
        requires
            self.wf(),
            self@.pc + 1 < MEMORY_SIZE,
        ensures
            r == self@.fetch(),
    {
        let pc = self.pc as usize;
        (self.memory[pc] as u16) * 0x100 + self.memory[pc + 1] as u16
    }

    /// One emulated tick: fetches the opcode at the program counter, advances
    /// the program counter past it, dispatches it, then counts both timers
    /// down. Returns whether the tone sounds in this cycle. On a fault the
    /// machine is left unchanged.
    pub fn execute_cycle(&mut self, random: u8) -> (r: Result<bool, Fault>)
        requires
            old(self).wf(),
        ensures
            final(self).wf(),
            match old(self)@.cycle(random) {
                Ok((m, tone)) => r == Ok::<bool, Fault>(tone) && final(self)@ == m,
                Err(f) => r == Err::<bool, Fault>(f) && final(self)@ == old(self)@,
            },
    {
        if self.pc as usize + 1 >= MEMORY_SIZE {
            return Err(Fault::OutOfBounds(self.pc as usize + 1));
        }
        let opcode = self.fetch_opcode();
        self.pc = self.pc + 2;
        match self.process_opcode(opcode, random) {
            Ok(()) => {},
            Err(fault) => {
                self.pc = self.pc - 2;
                return Err(fault);
            },
        }
        if self.delay_timer > 0 {
            self.delay_timer = self.delay_timer - 1;
        }
        let tone = self.sound_timer > 0;
        if tone {
            self.sound_timer = self.sound_timer - 1;
        }
        Ok(tone)
    }

    /// The framebuffer, row-major, one byte of 0 or 1 per pixel.
    pub fn screen(&self) -> (r: &[u8])
        ensures
            r@ == self@.screen,
    {
        self.screen.as_slice()
    }

    /// Whether the framebuffer changed since the host last took a frame.
    pub fn should_draw(&self) -> (r: bool)
        ensures
            r == self@.should_draw,
    {
        self.should_draw
    }

    /// Records that the host has taken the current frame.
    pub fn frame_taken(&mut self)
        requires
            old(self).wf(),
        ensures
            final(self).wf(),
            final(self)@ == (Machine { should_draw: false, ..old(self)@ }),
    {
        self.should_draw = false;
    }

    /// Sets the state of every key of the keypad.
    pub fn set_keys(&mut self, keys: [bool; KEY_COUNT])
        requires
            old(self).wf(),
        ensures
            final(self).wf(),
            final(self)@ == (Machine { keys: keys@, ..old(self)@ }),
    {
        self.keys = keys;
    }

    /// Presses or releases one key.
    pub fn set_key(&mut self, key: usize, pressed: bool)
        requires
            old(self).wf(),
            key < KEY_COUNT,
        ensures
            final(self).wf(),
            final(self)@ == (Machine { keys: old(self)@.keys.update(key as int, pressed), ..old(self)@ }),
    {
        self.keys[key] = pressed;
    }

    /// The general register `Vx`.
    pub fn register(&self, x: usize) -> (r: u8)
        requires
            self.wf(),
            x < REGISTER_COUNT,
        ensures
            r == self@.registers[x as int],
    {
        self.registers[x]
    }

    /// The byte at `addr`.
    pub fn memory_at(&self, addr: usize) -> (r: u8)
        requires
            self.wf(),
            addr < MEMORY_SIZE,
        ensures
            r == self@.memory[addr as int],
    {
        self.memory[addr]
    }

    /// The program counter.
    pub fn pc(&self) -> (r: u16)
        ensures
            r == self@.pc,
    {
        self.pc
    }

    /// The index register.
    pub fn index(&self) -> (r: u16)
        ensures
            r == self@.index,
    {
        self.index
    }

    /// The number of return addresses on the call stack.
    pub fn stack_pointer(&self) -> (r: u16)
        ensures
            r == self@.sp,
    {
        self.sp
    }

    /// The delay timer.
    pub fn delay_timer(&self) -> (r: u8)
        ensures
            r == self@.delay_timer,
    {
        self.delay_timer
    }

    /// The sound timer.
    pub fn sound_timer(&self) -> (r: u8)
        ensures
            r == self@.sound_timer,
    {
        self.sound_timer
    }
}

} // verus!
