use vstd::prelude::*;

use crate::instruction::{decode_spec, Instruction};

verus! {

/// Number of addressable bytes of memory.
pub const MEMORY_SIZE: usize = 4096;

/// Address at which programs are loaded and execution starts.
pub const PROGRAM_START: usize = 0x200;

/// Largest program that fits between `PROGRAM_START` and the end of memory.
pub const MAX_ROM_SIZE: usize = 3584;

/// Number of general registers; the last one doubles as the flag register.
pub const REGISTER_COUNT: usize = 16;

/// The register that reports carry, borrow and sprite collision.
pub const FLAG: usize = 15;

/// Depth of the call stack.
pub const STACK_DEPTH: usize = 16;

/// Number of keys on the keypad.
pub const KEY_COUNT: usize = 16;

/// Framebuffer height in pixels.
pub const SCREEN_ROWS: usize = 32;

/// Framebuffer width in pixels.
pub const SCREEN_COLS: usize = 64;

/// Number of pixels in the framebuffer.
pub const SCREEN_SIZE: usize = 2048;

/// Bytes taken by the built-in glyphs of the sixteen hexadecimal digits.
pub const FONT_SIZE: usize = 80;

/// Why the machine stopped. Every fault leaves the machine exactly as it was
/// before the failing operation, so the host can read the program counter and
/// the opcode at it to diagnose the program.
#[derive(Clone, Copy, Debug, PartialEq, Eq, Structural)]
pub enum Fault {
    /// The fetched value matches no pattern of the instruction set.
    UnrecognizedOpcode(u16),
    /// The instruction would reach past the end of memory: the value is the
    /// program counter it would set, or the last address it would access.
    OutOfBounds(usize),
    /// A key instruction named a key beyond the keypad.
    InvalidKey(u8),
    /// A call with every stack level already in use.
    StackOverflow,
    /// A return with an empty stack.
    StackUnderflow,
    /// The program, of the given length, does not fit in program memory.
    RomTooLarge(usize),
}

/// The whole state of the virtual machine, as mathematical values.
pub ghost struct Machine {
    pub memory: Seq<u8>,
    pub registers: Seq<u8>,
    pub index: u16,
    pub pc: u16,
    pub screen: Seq<u8>,
    pub delay_timer: u8,
    pub sound_timer: u8,
    pub stack: Seq<u16>,
    pub sp: u16,
    pub keys: Seq<bool>,
    pub should_draw: bool,
}

/// The glyphs of the hexadecimal digits `0` to `F`, five rows of each.
pub open spec fn font_spec() -> Seq<u8> {
    seq![
        0xF0u8, 0x90, 0x90, 0x90, 0xF0, 0x20, 0x60, 0x20, 0x20, 0x70,
        0xF0, 0x10, 0xF0, 0x80, 0xF0, 0xF0, 0x10, 0xF0, 0x10, 0xF0,
        0x90, 0x90, 0xF0, 0x10, 0x10, 0xF0, 0x80, 0xF0, 0x10, 0xF0,
        0xF0, 0x80, 0xF0, 0x90, 0xF0, 0xF0, 0x10, 0x20, 0x40, 0x40,
        0xF0, 0x90, 0xF0, 0x90, 0xF0, 0xF0, 0x90, 0xF0, 0x10, 0xF0,
        0xF0, 0x90, 0xF0, 0x90, 0x90, 0xE0, 0x90, 0xE0, 0x90, 0xE0,
        0xF0, 0x80, 0x80, 0x80, 0xF0, 0xE0, 0x90, 0x90, 0x90, 0xE0,
        0xF0, 0x80, 0xF0, 0x80, 0xF0, 0xF0, 0x80, 0xF0, 0x80, 0x80,
    ]
}

/// The state right after construction: everything zero.
pub open spec fn blank_machine() -> Machine {
    Machine {
        memory: Seq::new(MEMORY_SIZE as nat, |a: int| 0u8),
        registers: Seq::new(REGISTER_COUNT as nat, |i: int| 0u8),
        index: 0,
        pc: 0,
        screen: Seq::new(SCREEN_SIZE as nat, |p: int| 0u8),
        delay_timer: 0,
        sound_timer: 0,
        stack: Seq::new(STACK_DEPTH as nat, |i: int| 0u16),
        sp: 0,
        keys: Seq::new(KEY_COUNT as nat, |i: int| false),
        should_draw: false,
    }
}

/// The state after a reset: the font at address 0, the program counter at
/// `PROGRAM_START`, everything else zero.
pub open spec fn initialized_machine() -> Machine {
    Machine {
        memory: Seq::new(
            MEMORY_SIZE as nat,
            |a: int|
                if a < FONT_SIZE {
                    font_spec()[a]
                } else {
                    0u8
                },
        ),
        pc: PROGRAM_START as u16,
        ..blank_machine()
    }
}

/// Memory after copying `rom` to `PROGRAM_START`.
pub open spec fn loaded_memory(memory: Seq<u8>, rom: Seq<u8>) -> Seq<u8> {
    Seq::new(
        memory.len(),
        |a: int|
            if PROGRAM_START <= a < PROGRAM_START + rom.len() {
                rom[a - PROGRAM_START]
            } else {
                memory[a]
            },
    )
}

/// A pixel drawn over: lit becomes unlit and unlit becomes lit.
pub open spec fn toggled(pixel: u8) -> u8 {
    if pixel == 0 {
        1
    } else {
        0
    }
}

/// Whether column `col` (0 leftmost) of a sprite row is set.
pub open spec fn sprite_bit(row_bits: u8, col: int) -> bool {
    row_bits & (0x80u8 >> (col as u8)) != 0
}

/// Whether a sprite of `height` rows read from `index`, placed with its top
/// left corner at (`vx`, `vy`), covers pixel `p` with a set bit. Parts of the
/// sprite beyond the right or bottom edge are clipped.
pub open spec fn sprite_covers(
    memory: Seq<u8>,
    index: int,
    vx: int,
    vy: int,
    height: int,
    p: int,
) -> bool {
    let row = p / SCREEN_COLS as int - vy;
    let col = p % SCREEN_COLS as int - vx;
    &&& 0 <= row < height
    &&& 0 <= col < 8
    &&& sprite_bit(memory[index + row], col)
}

/// The framebuffer after drawing that sprite.
pub open spec fn drawn_screen(m: Machine, vx: int, vy: int, height: int) -> Seq<u8> {
    Seq::new(
        m.screen.len(),
        |p: int|
            if sprite_covers(m.memory, m.index as int, vx, vy, height, p) {
                toggled(m.screen[p])
            } else {
                m.screen[p]
            },
    )
}

/// Whether drawing that sprite turns some lit pixel off.
pub open spec fn collides(m: Machine, vx: int, vy: int, height: int) -> bool {
    exists|p: int|
        0 <= p < SCREEN_SIZE && #[trigger] sprite_covers(m.memory, m.index as int, vx, vy, height, p)
            && m.screen[p] != 0
}

/// `key` is pressed and no key below it is.
pub open spec fn is_lowest_pressed(keys: Seq<bool>, key: int) -> bool {
    &&& 0 <= key < KEY_COUNT
    &&& keys[key]
    &&& forall|j: int| 0 <= j < key ==> !keys[j]
}

/// Whether any key is pressed.
pub open spec fn any_pressed(keys: Seq<bool>) -> bool {
    exists|k: int| 0 <= k < KEY_COUNT && keys[k]
}

/// The decimal digits of `v`: hundreds, tens and ones.
pub open spec fn decimal_digits(v: u8) -> Seq<u8> {
    seq![v / 100, (v / 10) % 10, v % 10]
}

/// The opcode that two bytes at `addr` hold, most significant byte first.
pub open spec fn opcode_at(memory: Seq<u8>, addr: int) -> u16 {
    (memory[addr] as int * 0x100 + memory[addr + 1] as int) as u16
}

/// How the outcome of an operation relates the states before and after it: on
/// success the state is `expected`, on a fault the state is unchanged.
pub open spec fn follows(
    before: Machine,
    after: Machine,
    r: Result<(), Fault>,
    expected: Result<Machine, Fault>,
) -> bool {
    match expected {
        Ok(m) => r == Ok::<(), Fault>(()) && after == m,
        Err(f) => r == Err::<(), Fault>(f) && after == before,
    }
}

impl Machine {
    /// The shape every reachable state has.
    pub open spec fn wf(self) -> bool {
        &&& self.memory.len() == MEMORY_SIZE
        &&& self.registers.len() == REGISTER_COUNT
        &&& self.screen.len() == SCREEN_SIZE
        &&& self.stack.len() == STACK_DEPTH
        &&& self.keys.len() == KEY_COUNT
        &&& self.pc <= MEMORY_SIZE
        &&& self.sp <= STACK_DEPTH
        &&& forall|i: int| 0 <= i < STACK_DEPTH ==> #[trigger] self.stack[i] <= MEMORY_SIZE
        &&& forall|p: int| 0 <= p < SCREEN_SIZE ==> #[trigger] self.screen[p] <= 1
    }

    /// The general register `Vx`.
    pub open spec fn reg(self, x: u8) -> u8 {
        self.registers[x as int]
    }

    /// Sets `Vx` to `v`.
    pub open spec fn with_reg(self, x: u8, v: u8) -> Machine {
        Machine { registers: self.registers.update(x as int, v), ..self }
    }

    /// Sets `Vx` to `v`, then the flag register to `flag`.
    pub open spec fn with_result_and_flag(self, x: u8, v: u8, flag: u8) -> Machine {
        Machine { registers: self.registers.update(x as int, v).update(FLAG as int, flag), ..self }
    }

    /// Sets the flag register to `flag`, then `Vx` to `v`.
    pub open spec fn with_flag_and_result(self, x: u8, v: u8, flag: u8) -> Machine {
        Machine { registers: self.registers.update(FLAG as int, flag).update(x as int, v), ..self }
    }

    /// Moves the program counter to `target`, which must stay within memory.
    pub open spec fn jump_to(self, target: int) -> Result<Machine, Fault> {
        if target > MEMORY_SIZE {
            Err(Fault::OutOfBounds(target as usize))
        } else {
            Ok(Machine { pc: target as u16, ..self })
        }
    }

    /// Skips the next instruction when `cond` holds.
    pub open spec fn skip_if(self, cond: bool) -> Result<Machine, Fault> {
        if cond {
            self.jump_to(self.pc + 2)
        } else {
            Ok(self)
        }
    }

    /// Whether `len` bytes from the index register lie past the end of memory.
    pub open spec fn block_out_of_bounds(self, len: int) -> bool {
        len > 0 && self.index + len > MEMORY_SIZE
    }

    /// The fault for such a block: its last address.
    pub open spec fn block_fault(self, len: int) -> Fault {
        Fault::OutOfBounds((self.index + len - 1) as usize)
    }

    /// The sprite draw `Dxyn`: clears the flag register, toggles each covered
    /// pixel, sets the flag register to 1 on any collision, and asks for a redraw.
    /// The coordinates are those `Vx` and `Vy` held before the flag register
    /// was cleared.
    pub open spec fn draw(self, x: u8, y: u8, height: u8) -> Result<Machine, Fault> {
        let vx = self.reg(x) as int;
        let vy = self.reg(y) as int;
        if self.block_out_of_bounds(height as int) {
            Err(self.block_fault(height as int))
        } else {
            Ok(
                Machine {
                    screen: drawn_screen(self, vx, vy, height as int),
                    registers: self.registers.update(
                        FLAG as int,
                        if collides(self, vx, vy, height as int) {
                            1u8
                        } else {
                            0u8
                        },
                    ),
                    should_draw: true,
                    ..self
                },
            )
        }
    }

    /// The effect of one decoded instruction; `random` is the byte that `Cxkk`
    /// draws.
    pub open spec fn execute(self, i: Instruction, random: u8) -> Result<Machine, Fault> {
        match i {
            Instruction::ClearScreen => Ok(
                Machine {
                    screen: Seq::new(SCREEN_SIZE as nat, |p: int| 0u8),
                    should_draw: true,
                    ..self
                },
            ),
            Instruction::Return => if self.sp == 0 {
                Err(Fault::StackUnderflow)
            } else {
                Ok(
                    Machine {
                        sp: (self.sp - 1) as u16,
                        pc: self.stack[self.sp - 1],
                        ..self
                    },
                )
            },
            Instruction::Jump { addr } => self.jump_to(addr as int),
            Instruction::Call { addr } => if self.sp >= STACK_DEPTH {
                Err(Fault::StackOverflow)
            } else {
                Ok(
                    Machine {
                        stack: self.stack.update(self.sp as int, self.pc),
                        sp: (self.sp + 1) as u16,
                        pc: addr,
                        ..self
                    },
                )
            },
            Instruction::SkipIfEqualByte { x, byte } => self.skip_if(self.reg(x) == byte),
            Instruction::SkipIfNotEqualByte { x, byte } => self.skip_if(self.reg(x) != byte),
            Instruction::SkipIfEqualRegister { x, y } => self.skip_if(self.reg(x) == self.reg(y)),
            Instruction::LoadByte { x, byte } => Ok(self.with_reg(x, byte)),
            Instruction::AddByte { x, byte } => Ok(
                self.with_reg(x, ((self.reg(x) + byte) % 256) as u8),
            ),
            Instruction::Move { x, y } => Ok(self.with_reg(x, self.reg(y))),
            Instruction::Or { x, y } => Ok(self.with_reg(x, self.reg(x) | self.reg(y))),
            Instruction::And { x, y } => Ok(self.with_reg(x, self.reg(x) & self.reg(y))),
            Instruction::Xor { x, y } => Ok(self.with_reg(x, self.reg(x) ^ self.reg(y))),
            Instruction::AddRegister { x, y } => {
                let sum = self.reg(x) + self.reg(y);
                Ok(
                    self.with_result_and_flag(
                        x,
                        (sum % 256) as u8,
                        if sum > 255 {
                            1
                        } else {
                            0
                        },
                    ),
                )
            },
            Instruction::SubRegister { x, y } => Ok(
                self.with_result_and_flag(
                    x,
                    ((self.reg(x) + 256 - self.reg(y)) % 256) as u8,
                    if self.reg(x) >= self.reg(y) {
                        1
                    } else {
                        0
                    },
                ),
            ),
            Instruction::ShiftRight { x, y: _ } => Ok(
                self.with_flag_and_result(x, self.reg(x) / 2, self.reg(x) % 2),
            ),
            Instruction::SubReversed { x, y } => Ok(
                self.with_result_and_flag(
                    x,
                    ((self.reg(y) + 256 - self.reg(x)) % 256) as u8,
                    if self.reg(y) >= self.reg(x) {
                        1
                    } else {
                        0
                    },
                ),
            ),
            Instruction::ShiftLeft { x, y: _ } => Ok(
                self.with_flag_and_result(x, ((self.reg(x) * 2) % 256) as u8, self.reg(x) / 128),
            ),
            Instruction::SkipIfNotEqualRegister { x, y } => self.skip_if(
                self.reg(x) != self.reg(y),
            ),
            Instruction::LoadIndex { addr } => Ok(Machine { index: addr, ..self }),
            Instruction::JumpOffset { addr } => self.jump_to(self.reg(0) + addr),
            Instruction::Random { x, byte } => Ok(self.with_reg(x, random & byte)),
            Instruction::Draw { x, y, height } => self.draw(x, y, height),
            Instruction::SkipIfKey { x } => if self.reg(x) >= KEY_COUNT {
                Err(Fault::InvalidKey(self.reg(x)))
            } else {
                self.skip_if(self.keys[self.reg(x) as int])
            },
            Instruction::SkipIfNotKey { x } => if self.reg(x) >= KEY_COUNT {
                Err(Fault::InvalidKey(self.reg(x)))
            } else {
                self.skip_if(!self.keys[self.reg(x) as int])
            },
            Instruction::LoadDelay { x } => Ok(self.with_reg(x, self.delay_timer)),
            Instruction::WaitKey { x } => if any_pressed(self.keys) {
                let k = choose|k: int| is_lowest_pressed(self.keys, k);
                Ok(self.with_reg(x, k as u8))
            } else if self.pc < 2 {
                Err(Fault::OutOfBounds(self.pc as usize))
            } else {
                Ok(Machine { pc: (self.pc - 2) as u16, ..self })
            },
            Instruction::SetDelay { x } => Ok(Machine { delay_timer: self.reg(x), ..self }),
            Instruction::SetSound { x } => Ok(Machine { sound_timer: self.reg(x), ..self }),
            Instruction::AddIndex { x } => Ok(
                Machine { index: ((self.index + self.reg(x)) % 0x10000) as u16, ..self },
            ),
            Instruction::LoadGlyph { x } => Ok(Machine { index: (self.reg(x) * 5) as u16, ..self }),
            Instruction::StoreDecimal { x } => if self.block_out_of_bounds(3) {
                Err(self.block_fault(3))
            } else {
                let i = self.index as int;
                let d = decimal_digits(self.reg(x));
                Ok(
                    Machine {
                        memory: self.memory.update(i, d[0]).update(i + 1, d[1]).update(i + 2, d[2]),
                        ..self
                    },
                )
            },
            Instruction::StoreRegisters { x } => if self.block_out_of_bounds(x + 1) {
                Err(self.block_fault(x + 1))
            } else {
                Ok(
                    Machine {
                        memory: Seq::new(
                            self.memory.len(),
                            |a: int|
                                if self.index <= a <= self.index + x {
                                    self.registers[a - self.index]
                                } else {
                                    self.memory[a]
                                },
                        ),
                        ..self
                    },
                )
            },
            Instruction::LoadRegisters { x } => if self.block_out_of_bounds(x + 1) {
                Err(self.block_fault(x + 1))
            } else {
                Ok(
                    Machine {
                        registers: Seq::new(
                            self.registers.len(),
                            |i: int|
                                if i <= x {
                                    self.memory[self.index + i]
                                } else {
                                    self.registers[i]
                                },
                        ),
                        ..self
                    },
                )
            },
        }
    }

    /// Dispatches one opcode against this state.
    pub open spec fn step(self, opcode: u16, random: u8) -> Result<Machine, Fault> {
        match decode_spec(opcode) {
            Some(i) => self.execute(i, random),
            None => Err(Fault::UnrecognizedOpcode(opcode)),
        }
    }

    /// The timers after one cycle: each counts down by one unless at zero.
    pub open spec fn tick(self) -> Machine {
        Machine {
            delay_timer: if self.delay_timer > 0 {
                (self.delay_timer - 1) as u8
            } else {
                0
            },
            sound_timer: if self.sound_timer > 0 {
                (self.sound_timer - 1) as u8
            } else {
                0
            },
            ..self
        }
    }

    /// The opcode at the program counter.
    pub open spec fn fetch(self) -> u16 {
        opcode_at(self.memory, self.pc as int)
    }

    /// One full cycle: fetch, advance the program counter, dispatch, and count
    /// the timers down. Alongside the next state it gives whether the tone
    /// sounds in this cycle, that is whether the sound timer was active when
    /// counted down.
    pub open spec fn cycle(self, random: u8) -> Result<(Machine, bool), Fault> {
        if self.pc + 1 >= MEMORY_SIZE {
            Err(Fault::OutOfBounds((self.pc + 1) as usize))
        } else {
            match (Machine { pc: (self.pc + 2) as u16, ..self }).step(self.fetch(), random) {
                Ok(m) => Ok((m.tick(), m.sound_timer > 0)),
                Err(f) => Err(f),
            }
        }
    }
}

} // verus!
