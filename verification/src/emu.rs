use vstd::prelude::*;
use crate::error::Error;
use crate::font::FONT;
use crate::machine::{
    Machine,
    RunState,
    op_x,
    op_y,
    op_kk,
    op_nnn,
    lemma_run_reads_prefix,
    lemma_run_halts,
};
use crate::random::{RandomSource, ThreadRandom};
use crate::sprite::{toggled, cell_of, covers, covers_before, collides, draw, lemma_cell_of};

verus! {

/// Address at which a program image is loaded and at which execution starts.
pub const ROM_OFFSET: usize = 0x200;

/// Number of pixels in one display row.
pub const COLS: usize = 64;

/// Number of display rows.
pub const ROWS: usize = 32;

/// Total number of pixels.
pub const PIXELS: usize = 2048;

/// Number of bytes of memory.
pub const MEMORY_SIZE: usize = 0x1000;

/// A CHIP-8 machine: 4 KB of memory, sixteen 8-bit registers, a sixteen-deep
/// call stack, a 64x32 monochrome display, a sixteen-key keypad and two
/// countdown timers.
pub struct Emulator {
    memory: [u8; 0x1000],
    v: [u8; 0x10],
    stack: [u16; 0x10],
    sp: u8,
    display: [u8; 2048],
    keyboard: [bool; 0x10],
    run_state: RunState,
    speed: u8,
    pc: u16,
    i: u16,
    dt: u8,
    st: u8,
}

impl View for Emulator {
    type V = Machine;

    closed spec fn view(&self) -> Machine {
        Machine {
            memory: self.memory@,
            v: self.v@,
            stack: self.stack@,
            sp: self.sp,
            display: self.display@,
            keypad: self.keyboard@,
            run_state: self.run_state,
            speed: self.speed,
            pc: self.pc,
            i: self.i,
            dt: self.dt,
            st: self.st,
        }
    }
}

impl Emulator {
    #[verifier::type_invariant]
    spec fn inv(self) -> bool {
        self@.wf()
    }

    /// A new machine: memory, registers, stack and display zeroed, no key
    /// down, running from address 0x200 at ten instructions per cycle. The
    /// font is not yet in memory.
    pub fn new() -> (emu: Self)
        ensures
            emu@ == Machine::initial(),
    {
        Self {
            memory: [0; 0x1000],
            v: [0; 0x10],
            display: [0; 2048],
            stack: [0; 0x10],
            sp: 0,
            keyboard: [false; 0x10],
            run_state: RunState::Running,
            pc: 0x200,
            i: 0,
            speed: 10,
            dt: 0,
            st: 0,
        }
    }

    /// Writes the built-in font to the first 80 bytes of memory.
    pub fn load_sprites(&mut self)
        ensures
            final(self)@ == old(self)@.with_font(),
            final(self)@.memory.subrange(0, 80) == FONT@,
    {
        proof {
            use_type_invariant(&*self);
        }
        let mut offset: usize = 0;
        while offset < 80
            invariant
                offset <= 80,
                self@.wf(),
                self@ == (Machine { memory: self@.memory, ..old(self)@ }),
                forall|a: int| 0 <= a < offset ==> self@.memory[a] == FONT[a],
                forall|a: int| offset <= a < 4096 ==> self@.memory[a] == old(self)@.memory[a],
            decreases 80 - offset,
        {
            self.memory[offset] = FONT[offset];
            offset += 1;
        }
    }

    /// Copies the program image into memory from address 0x200 on. An image
    /// of more than 3584 bytes is refused, and memory stays as it was.
    pub fn load_rom(&mut self, rom: &[u8]) -> (r: Result<(), Error>)
        ensures
            rom@.len() <= 0x1000 - 0x200 ==> r is Ok && final(self)@ == old(self)@.with_rom(rom@),
            rom@.len() > 0x1000 - 0x200 ==> r == Err::<(), Error>(Error::ProgramTooLarge)
                && final(self)@ == old(self)@,
            r is Ok ==> forall|k: int|
                0 <= k < rom@.len() ==> final(self)@.memory[0x200 + k] == rom@[k],
    {
        proof {
            use_type_invariant(&*self);
        }
        if rom.len() > MEMORY_SIZE - ROM_OFFSET {
            return Err(Error::ProgramTooLarge);
        }
        let mut idx: usize = 0;
        while idx < rom.len()
            invariant
                idx <= rom@.len() <= 0x1000 - 0x200,
                self@.wf(),
                self@ == (Machine { memory: self@.memory, ..old(self)@ }),
                forall|a: int| 0x200 <= a < 0x200 + idx ==> self@.memory[a] == rom@[a - 0x200],
                forall|a: int|
                    0 <= a < 4096 && !(0x200 <= a < 0x200 + idx) ==> self@.memory[a] == old(
                        self,
                    )@.memory[a],
            decreases rom@.len() - idx,
        {
            self.memory[ROM_OFFSET + idx] = rom[idx];
            idx += 1;
        }
        Ok(())
    }

    /// Toggles the display cell at column `x`, row `y`, both taken modulo the
    /// display size so that coordinates past an edge, or negative ones, wrap
    /// around. Returns whether the cell was lit, and so went dark.
    pub fn set_pixel(&mut self, x: isize, y: isize) -> (erased: bool)
        ensures
            erased == (old(self)@.display[(y % 32) * 64 + x % 64] != 0),
            final(self)@ == (Machine {
                display: old(self)@.display.update(
                    (y % 32) * 64 + x % 64,
                    toggled(old(self)@.display[(y % 32) * 64 + x % 64]),
                ),
                ..old(self)@
            }),
    {
        proof {
            use_type_invariant(&*self);
        }
        let mut col = x % (COLS as isize);
        if col < 0 {
            col += COLS as isize;
        }
        let mut row = y % (ROWS as isize);
        if row < 0 {
            row += ROWS as isize;
        }
        let idx = ((row * (COLS as isize)) + col) as usize;
        let erased = self.display[idx] != 0;
        assert(forall|c: u8| c <= 1 ==> c ^ 1 == #[trigger] toggled(c)) by {
            assert(0u8 ^ 1 == 1) by (bit_vector);
            assert(1u8 ^ 1 == 0) by (bit_vector);
        }
        self.display[idx] ^= 1;
        erased
    }

    /// Turns every display cell dark.
    pub fn clear_display(&mut self)
        ensures
            final(self)@ == old(self)@.cleared(),
    {
        proof {
            use_type_invariant(&*self);
        }
        self.display = [0; 2048];
    }

    /// Whether the key with the given code is held down. Codes above 0xF are
    /// refused.
    pub fn is_key_pressed(&self, code: u8) -> (r: Result<bool, Error>)
        ensures
            code < 16 ==> r == Ok::<bool, Error>(self@.keypad[code as int]),
            code >= 16 ==> r == Err::<bool, Error>(Error::InvalidKeyCode),
    {
        if code < 16 {
            Ok(self.keyboard[code as usize])
        } else {
            Err(Error::InvalidKeyCode)
        }
    }

    /// Records that a key went down. A key that is already held changes
    /// nothing. A fresh press while the machine waits for a key stores the
    /// code in the awaited register and resumes execution. Codes above 0xF are
    /// refused.
    pub fn key_down(&mut self, code: u8) -> (r: Result<(), Error>)
        ensures
            code < 16 ==> r is Ok && final(self)@ == old(self)@.key_down(code),
            code >= 16 ==> r == Err::<(), Error>(Error::InvalidKeyCode) && final(self)@ == old(
                self,
            )@,
    {
        proof {
            use_type_invariant(&*self);
        }
        if code >= 16 {
            return Err(Error::InvalidKeyCode);
        }
        if !self.keyboard[code as usize] {
            self.keyboard[code as usize] = true;
            match self.run_state {
                RunState::WaitingForKey(target) => {
                    self.v[target as usize] = code;
                    self.run_state = RunState::Running;
                },
                RunState::Running => {},
            }
        }
        Ok(())
    }

    /// Records that a key was released. Nothing else changes: a release never
    /// resolves a pending wait. Codes above 0xF are refused.
    pub fn key_up(&mut self, code: u8) -> (r: Result<(), Error>)
        ensures
            code < 16 ==> r is Ok && final(self)@ == old(self)@.key_up(code),
            code >= 16 ==> r == Err::<(), Error>(Error::InvalidKeyCode) && final(self)@ == old(
                self,
            )@,
    {
        proof {
            use_type_invariant(&*self);
        }
        if code >= 16 {
            return Err(Error::InvalidKeyCode);
        }
        if self.keyboard[code as usize] {
            self.keyboard[code as usize] = false;
        }
        Ok(())
    }

    /// Fetches the instruction word at the program counter: the byte there is
    /// its high half, the next byte its low half. Fails if either byte lies
    /// outside memory.
    pub fn opcode(&self) -> (r: Result<u16, Error>)
        ensures
            r == self@.fetch(),
    {
        let pc = self.pc as usize;
        if pc + 1 < MEMORY_SIZE {
            let hi = self.memory[pc] as u16;
            let lo = self.memory[pc + 1] as u16;
            assert((hi << 8) | lo == hi * 256 + lo) by (bit_vector)
                requires
                    hi < 256,
                    lo < 256,
            ;
            Ok((hi << 8) | lo)
        } else {
            Err(Error::MemoryOutOfBounds)
        }
    }

    /// Splits an instruction word into its fields `(x, y, kk, nnn)`: the two
    /// register indices, the low byte and the low twelve bits.
    pub fn decode_opcode(&self, op: u16) -> (fields: (u8, u8, u8, u16))
        ensures
            fields.0 == op_x(op),
            fields.1 == op_y(op),
            fields.2 == op_kk(op),
            fields.3 == op_nnn(op),
    {
        assert((op & 0x0F00) >> 8 == (op / 256) % 16) by (bit_vector);
        assert((op & 0x00F0) >> 4 == (op / 16) % 16) by (bit_vector);
        assert(op & 0xFF == op % 256) by (bit_vector);
        assert(op & 0xFFF == op % 4096) by (bit_vector);
        (((op & 0x0F00) >> 8) as u8, ((op & 0x00F0) >> 4) as u8, (op & 0xFF) as u8, op & 0xFFF)
    }

    /// `Dxyn`: draws the sprite of `n` rows found at `I` at the position held
    /// in `V[x]` and `V[y]`, and sets `VF` to whether a lit cell went dark.
    fn exec_draw(&mut self, op: u16) -> (r: Result<(), Error>)
        requires
            old(self)@.can_fetch(),
        ensures
            old(self)@.leads_to(old(self)@.exec_draw(op), final(self)@, r),
    {
        proof {
            use_type_invariant(&*self);
        }
        let (x, y, _, _) = self.decode_opcode(op);
        let vx = self.v[x as usize] as isize;
        let vy = self.v[y as usize] as isize;
        assert(op & 0xF == op % 16) by (bit_vector);
        let height = (op & 0xF) as usize;
        let base = self.i as usize;
        if height > 0 && base + height > MEMORY_SIZE {
            return Err(Error::MemoryOutOfBounds);
        }
        let ghost before = self@;
        let ghost sprite = before.sprite_at(height as int);
        let ghost mut hit: int = 0;
        let mut collided = false;
        let mut row: usize = 0;
        while row < height
            invariant
                row <= height <= 15,
                height > 0 ==> base + height <= 4096,
                base == before.i,
                0 <= vx < 256,
                0 <= vy < 256,
                before.wf(),
                self@.wf(),
                sprite == before.sprite_at(height as int),
                self@ == (Machine { display: self@.display, ..before }),
                forall|k: int|
                    0 <= k < 2048 ==> self@.display[k] == if #[trigger] covers_before(
                        sprite,
                        vx as int,
                        vy as int,
                        k,
                        row as int,
                        0,
                    ) {
                        toggled(before.display[k])
                    } else {
                        before.display[k]
                    },
                collided ==> 0 <= hit < 2048 && covers(sprite, vx as int, vy as int, hit)
                    && before.display[hit] != 0,
                !collided ==> forall|k: int|
                    0 <= k < 2048 && #[trigger] covers_before(
                        sprite,
                        vx as int,
                        vy as int,
                        k,
                        row as int,
                        0,
                    ) ==> before.display[k] == 0,
            decreases height - row,
        {
            let byte = self.memory[base + row];
            let mut col: u8 = 0;
            while col < 8
                invariant
                    col <= 8,
                    row < height <= 15,
                    base + height <= 4096,
                    0 <= vx < 256,
                    0 <= vy < 256,
                    before.wf(),
                    self@.wf(),
                    sprite == before.sprite_at(height as int),
                    base == before.i,
                    byte == sprite[row as int],
                    self@ == (Machine { display: self@.display, ..before }),
                    forall|k: int|
                        0 <= k < 2048 ==> self@.display[k] == if #[trigger] covers_before(
                            sprite,
                            vx as int,
                            vy as int,
                            k,
                            row as int,
                            col as int,
                        ) {
                            toggled(before.display[k])
                        } else {
                            before.display[k]
                        },
                    collided ==> 0 <= hit < 2048 && covers(sprite, vx as int, vy as int, hit)
                        && before.display[hit] != 0,
                    !collided ==> forall|k: int|
                        0 <= k < 2048 && #[trigger] covers_before(
                            sprite,
                            vx as int,
                            vy as int,
                            k,
                            row as int,
                            col as int,
                        ) ==> before.display[k] == 0,
                decreases 8 - col,
            {
                // Moving on by one pixel adds at most one cell to those drawn
                // so far: the cell under this pixel, if the pixel is set.
                let ghost cell = cell_of(vx as int, vy as int, row as int, col as int);
                assert forall|k: int| 0 <= k < 2048 implies (covers_before(
                    sprite,
                    vx as int,
                    vy as int,
                    k,
                    row as int,
                    col + 1,
                ) <==> covers_before(sprite, vx as int, vy as int, k, row as int, col as int) || (k
                    == cell && covers(sprite, vx as int, vy as int, k))) by {
                    lemma_cell_of(vx as int, vy as int, row as int, col as int, k);
                }
                proof {
                    lemma_cell_of(vx as int, vy as int, row as int, col as int, cell);
                }
                let lit = (byte >> (7 - col)) & 1 == 1;
                assert(lit == covers(sprite, vx as int, vy as int, cell));
                assert(!covers_before(sprite, vx as int, vy as int, cell, row as int, col as int));
                if lit {
                    let erased = self.set_pixel(vx + col as isize, vy + row as isize);
                    if erased {
                        collided = true;
                        proof {
                            hit = cell;
                        }
                    }
                }
                col += 1;
            }
            // No pixel lies past the eighth column, so the row is done.
            let ghost below = row + 1;
            assert forall|k: int| 0 <= k < 2048 implies (covers_before(
                sprite,
                vx as int,
                vy as int,
                k,
                row as int,
                8,
            ) <==> #[trigger] covers_before(sprite, vx as int, vy as int, k, below, 0)) by {}
            row += 1;
        }
        proof {
            // No pixel lies past the last row, so the sprite is done.
            assert forall|k: int| 0 <= k < 2048 implies (covers_before(
                sprite,
                vx as int,
                vy as int,
                k,
                height as int,
                0,
            ) <==> covers(sprite, vx as int, vy as int, k)) by {}
            assert(self@.display =~= draw(before.display, sprite, vx as int, vy as int));
            assert(collided == collides(before.display, sprite, vx as int, vy as int));
        }
        self.v[0xF] = if collided {
            1
        } else {
            0
        };
        self.pc = self.pc + 2;
        Ok(())
    }

    /// Family 0: `00E0` clears the display, `00EE` returns from a subroutine.
    fn exec_system(&mut self, op: u16) -> (r: Result<(), Error>)
        requires
            old(self)@.can_fetch(),
        ensures
            old(self)@.leads_to(old(self)@.exec_system(op), final(self)@, r),
    {
        proof {
            use_type_invariant(&*self);
        }
        match op {
            0x00E0 => {
                self.clear_display();
                self.pc = self.pc + 2;
                Ok(())
            },
            0x00EE => {
                if self.sp == 0 {
                    return Err(Error::StackUnderflow);
                }
                self.sp -= 1;
                self.pc = self.stack[self.sp as usize];
                self.stack[self.sp as usize] = 0;
                Ok(())
            },
            _ => Err(Error::UnknownInstruction { opcode: op, pc: self.pc }),
        }
    }

    /// `2nnn`: calls the subroutine at `nnn`.
    fn exec_call(&mut self, nnn: u16) -> (r: Result<(), Error>)
        requires
            old(self)@.can_fetch(),
        ensures
            old(self)@.leads_to(old(self)@.exec_call(nnn), final(self)@, r),
    {
        proof {
            use_type_invariant(&*self);
        }
        if self.sp >= 16 {
            return Err(Error::StackOverflow);
        }
        self.stack[self.sp as usize] = self.pc + 2;
        self.sp += 1;
        self.pc = nnn;
        Ok(())
    }

    /// Family 8: register-to-register arithmetic.
    fn exec_alu(&mut self, op: u16) -> (r: Result<(), Error>)
        requires
            old(self)@.can_fetch(),
        ensures
            old(self)@.leads_to(old(self)@.exec_alu(op), final(self)@, r),
    {
        proof {
            use_type_invariant(&*self);
        }
        let (x, y, _, _) = self.decode_opcode(op);
        let x = x as usize;
        let y = y as usize;
        let vx = self.v[x];
        let vy = self.v[y];
        assert(op & 0xF == op % 16) by (bit_vector);
        match op & 0xF {
            0x0 => {
                self.v[x] = vy;
            },
            0x1 => {
                self.v[x] |= vy;
            },
            0x2 => {
                self.v[x] &= vy;
            },
            0x3 => {
                self.v[x] ^= vy;
            },
            0x4 => {
                let sum = vx as u16 + vy as u16;
                assert(sum & 0xFF == sum % 256) by (bit_vector);
                if sum > 0xFF {
                    self.v[0xF] = 1;
                } else {
                    self.v[0xF] = 0;
                }
                self.v[x] = (sum & 0xFF) as u8;
            },
            0x5 => {
                if vx > vy {
                    self.v[0xF] = 1;
                } else {
                    self.v[0xF] = 0;
                }
                self.v[x] = vx.wrapping_sub(vy);
            },
            0x6 => {
                self.v[0xF] = vx & 0xF;
                self.v[x] >>= 1;
            },
            0x7 => {
                if vy > vx {
                    self.v[0xF] = 1;
                } else {
                    self.v[0xF] = 0;
                }
                self.v[x] = vy.wrapping_sub(vx);
            },
            0xE => {
                self.v[0xF] = vx & 0x80;
                let shifted = self.v[x];
                assert(shifted << 1 == (shifted * 2) % 256) by (bit_vector);
                self.v[x] <<= 1;
            },
            _ => {
                return Err(Error::UnknownInstruction { opcode: op, pc: self.pc });
            },
        }
        self.pc = self.pc + 2;
        Ok(())
    }

    /// Family E: skips the next instruction on the state of the key whose
    /// code is in `V[x]`.
    fn exec_key_skip(&mut self, op: u16) -> (r: Result<(), Error>)
        requires
            old(self)@.can_fetch(),
        ensures
            old(self)@.leads_to(old(self)@.exec_key_skip(op), final(self)@, r),
    {
        proof {
            use_type_invariant(&*self);
        }
        let (x, _, kk, _) = self.decode_opcode(op);
        let vx = self.v[x as usize];
        match kk {
            0x9E => {
                match self.is_key_pressed(vx) {
                    Ok(pressed) => {
                        if pressed {
                            self.pc = self.pc + 2;
                        }
                    },
                    Err(e) => {
                        return Err(e);
                    },
                }
            },
            0xA1 => {
                match self.is_key_pressed(vx) {
                    Ok(pressed) => {
                        if !pressed {
                            self.pc = self.pc + 2;
                        }
                    },
                    Err(e) => {
                        return Err(e);
                    },
                }
            },
            _ => {
                return Err(Error::UnknownInstruction { opcode: op, pc: self.pc });
            },
        }
        self.pc = self.pc + 2;
        Ok(())
    }

    /// `Fx55` with `V[x] == last`: copies `V[0] ..= V[last]` to memory from
    /// `I` on, writing zero for register numbers past 15.
    fn store_registers(&mut self, last: u8) -> (r: Result<(), Error>)
        ensures
            old(self)@.i + last < 4096 ==> r is Ok && final(self)@ == (Machine {
                memory: old(self)@.registers_stored(last as int),
                ..old(self)@
            }),
            old(self)@.i + last >= 4096 ==> r == Err::<(), Error>(Error::MemoryOutOfBounds)
                && final(self)@ == old(self)@,
    {
        proof {
            use_type_invariant(&*self);
        }
        let base = self.i as usize;
        if base + last as usize >= MEMORY_SIZE {
            return Err(Error::MemoryOutOfBounds);
        }
        let count = last as u16 + 1;
        let mut idx: u16 = 0;
        while idx < count
            invariant
                idx <= count == last + 1,
                base == old(self)@.i,
                base + last < 4096,
                self@.wf(),
                self@ == (Machine { memory: self@.memory, ..old(self)@ }),
                forall|a: int|
                    0 <= a < 4096 ==> self@.memory[a] == if base <= a < base + idx {
                        old(self)@.registers_stored(last as int)[a]
                    } else {
                        old(self)@.memory[a]
                    },
            decreases count - idx,
        {
            self.memory[base + idx as usize] = if idx > 15 {
                0
            } else {
                self.v[idx as usize]
            };
            idx += 1;
        }
        Ok(())
    }

    /// `Fx65` with `V[x] == last`: loads `V[0] ..= V[last]` from memory at
    /// `I` on, skipping register numbers past 15.
    fn load_registers(&mut self, last: u8) -> (r: Result<(), Error>)
        ensures
            old(self)@.i + Machine::last_loaded(last as int) < 4096 ==> r is Ok && final(self)@
                == (Machine { v: old(self)@.registers_loaded(last as int), ..old(self)@ }),
            old(self)@.i + Machine::last_loaded(last as int) >= 4096 ==> r == Err::<(), Error>(
                Error::MemoryOutOfBounds,
            ) && final(self)@ == old(self)@,
    {
        proof {
            use_type_invariant(&*self);
        }
        let base = self.i as usize;
        let count: u16 = if last < 16 {
            last as u16 + 1
        } else {
            16
        };
        if base + count as usize > MEMORY_SIZE {
            return Err(Error::MemoryOutOfBounds);
        }
        let mut idx: u16 = 0;
        while idx < count
            invariant
                idx <= count <= 16,
                count == Machine::last_loaded(last as int) + 1,
                base == old(self)@.i,
                base + count <= 4096,
                self@.wf(),
                self@ == (Machine { v: self@.v, ..old(self)@ }),
                forall|k: int|
                    0 <= k < 16 ==> self@.v[k] == if k < idx {
                        old(self)@.memory[base + k]
                    } else {
                        old(self)@.v[k]
                    },
            decreases count - idx,
        {
            self.v[idx as usize] = self.memory[base + idx as usize];
            idx += 1;
        }
        Ok(())
    }

    /// Family F: timers, the key wait, the address register, and transfers
    /// between registers and memory.
    fn exec_misc(&mut self, op: u16) -> (r: Result<(), Error>)
        requires
            old(self)@.can_fetch(),
        ensures
            old(self)@.leads_to(old(self)@.exec_misc(op), final(self)@, r),
    {
        proof {
            use_type_invariant(&*self);
        }
        let (x, _, kk, _) = self.decode_opcode(op);
        let vx = self.v[x as usize];
        match kk {
            0x07 => {
                self.v[x as usize] = self.dt;
            },
            0x0A => {
                self.run_state = RunState::WaitingForKey(x);
            },
            0x15 => {
                self.dt = vx;
            },
            0x18 => {
                self.st = vx;
            },
            0x1E => {
                self.i = self.i.wrapping_add(vx as u16);
            },
            0x29 => {
                self.i = vx as u16 * 5;
            },
            0x33 => {
                let i = self.i as usize;
                if i + 2 >= MEMORY_SIZE {
                    return Err(Error::MemoryOutOfBounds);
                }
                self.memory[i] = vx / 100;
                self.memory[i + 1] = (vx / 10) % 10;
                self.memory[i + 2] = (vx % 100) % 10;
            },
            0x55 => {
                self.store_registers(vx)?;
            },
            0x65 => {
                self.load_registers(vx)?;
            },
            _ => {
                return Err(Error::UnknownInstruction { opcode: op, pc: self.pc });
            },
        }
        self.pc = self.pc + 2;
        Ok(())
    }

    /// Executes the instruction word `op`, which was fetched at the program
    /// counter, with `rnd` as the random byte for `Cxkk`.
    fn execute(&mut self, op: u16, rnd: u8) -> (r: Result<(), Error>)
        requires
            old(self)@.can_fetch(),
        ensures
            old(self)@.leads_to(old(self)@.execute(op, rnd), final(self)@, r),
    {
        proof {
            use_type_invariant(&*self);
        }
        let (x, y, kk, nnn) = self.decode_opcode(op);
        let x = x as usize;
        let y = y as usize;
        assert(op >> 12 == op / 4096) by (bit_vector);
        match op >> 12 {
            0x0 => {
                return self.exec_system(op);
            },
            0x1 => {
                self.pc = nnn;
                return Ok(());
            },
            0x2 => {
                return self.exec_call(nnn);
            },
            0x3 => {
                if self.v[x] == kk {
                    self.pc = self.pc + 2;
                }
            },
            0x4 => {
                if self.v[x] != kk {
                    self.pc = self.pc + 2;
                }
            },
            0x5 => {
                if self.v[x] == self.v[y] {
                    self.pc = self.pc + 2;
                }
            },
            0x6 => {
                self.v[x] = kk;
            },
            0x7 => {
                self.v[x] = self.v[x].wrapping_add(kk);
            },
            0x8 => {
                return self.exec_alu(op);
            },
            0x9 => {
                if self.v[x] != self.v[y] {
                    self.pc = self.pc + 2;
                }
            },
            0xA => {
                self.i = nnn;
            },
            0xB => {
                self.pc = nnn + self.v[0] as u16;
                return Ok(());
            },
            0xC => {
                self.v[x] = rnd & kk;
            },
            0xD => {
                return self.exec_draw(op);
            },
            0xE => {
                return self.exec_key_skip(op);
            },
            _ => {
                return self.exec_misc(op);
            },
        }
        self.pc = self.pc + 2;
        Ok(())
    }

    /// Executes one instruction, with `rnd` as the random byte should the
    /// instruction be `Cxkk`: fetches the word at the program counter, moves
    /// the program counter past it and carries the instruction out. On failure
    /// the machine is left as it was, the program counter still at the
    /// offending instruction. A machine that waits for a key executes nothing
    /// and reports success.
    pub fn step(&mut self, rnd: u8) -> (r: Result<(), Error>)
        ensures
            old(self)@.leads_to(old(self)@.step(rnd), final(self)@, r),
    {
        proof {
            reveal(Machine::step);
        }
        if !self.is_running() {
            return Ok(());
        }
        match self.opcode() {
            Ok(op) => self.execute(op, rnd),
            Err(e) => Err(e),
        }
    }

    /// Executes one instruction as [`Emulator::step`] does, drawing the random
    /// byte from `rng` if the instruction is `Cxkk`.
    pub fn execute_instruction<R: RandomSource>(&mut self, rng: &mut R) -> (r: Result<(), Error>)
        ensures
            exists|rnd: u8| old(self)@.leads_to(#[trigger] old(self)@.step(rnd), final(self)@, r),
    {
        proof {
            reveal(Machine::step);
        }
        if !self.is_running() {
            assert(old(self)@.leads_to(old(self)@.step(0), self@, Ok(())));
            return Ok(());
        }
        match self.opcode() {
            Ok(op) => {
                let rnd = if op >> 12 == 0xC {
                    rng.next_byte()
                } else {
                    0
                };
                let r = self.execute(op, rnd);
                assert(old(self)@.leads_to(old(self)@.step(rnd), self@, r));
                r
            },
            Err(e) => {
                assert(old(self)@.leads_to(old(self)@.step(0), self@, Err(e)));
                Err(e)
            },
        }
    }

    /// Runs one cycle with the thread-local random generator as the source of
    /// random bytes: see [`Emulator::cycle_with`].
    pub fn cycle(&mut self) -> (r: Result<(), Error>)
        ensures
            exists|rs: Seq<u8>|
                rs.len() == old(self)@.speed && (final(self)@, r) == #[trigger] old(self)@.cycle(
                    rs,
                ),
    {
        let mut rng = ThreadRandom;
        self.cycle_with(&mut rng)
    }

    /// Runs one cycle: executes `speed` instructions, then decrements the
    /// timers once. The first instruction that fails ends the cycle with its
    /// error; the instructions before it have taken effect, the failing one has
    /// not, and the timers stand still. Once the machine waits for a key no
    /// further instruction is executed and the timers stand still, so a cycle
    /// of a waiting machine changes nothing.
    ///
    /// The random bytes are drawn from `rng`, one for each `Cxkk` executed.
    pub fn cycle_with<R: RandomSource>(&mut self, rng: &mut R) -> (r: Result<(), Error>)
        ensures
            exists|rs: Seq<u8>|
                rs.len() == old(self)@.speed && (final(self)@, r) == #[trigger] old(self)@.cycle(
                    rs,
                ),
    {
        proof {
            use_type_invariant(&*self);
        }
        let speed = self.speed;
        let ghost mut rs: Seq<u8> = Seq::empty();
        let mut status: Result<(), Error> = Ok(());
        let mut halted = !self.is_running();
        let mut done: u8 = 0;
        while done < speed && !halted
            invariant
                done <= speed,
                speed == old(self)@.speed,
                rs.len() == done,
                (self@, status) == old(self)@.run(rs, done as nat),
                halted <==> status is Err || self@.run_state != RunState::Running,
            decreases speed - done,
        {
            let ghost so_far = rs;
            let ghost here = self@;
            status = self.execute_instruction(rng);
            halted = status.is_err() || !self.is_running();
            proof {
                let rnd = choose|rnd: u8| here.leads_to(#[trigger] here.step(rnd), self@, status);
                rs = so_far.push(rnd);
                lemma_run_reads_prefix(old(self)@, so_far, rs, done as nat);
                assert(Machine::continued((here, Ok(())), rs[done as int]) == (self@, status));
            }
            done += 1;
        }
        proof {
            // The bytes that a halted run never draws can be anything.
            let drawn = rs;
            rs = Seq::new(speed as nat, |k: int| if k < done { drawn[k] } else { 0u8 });
            lemma_run_reads_prefix(old(self)@, drawn, rs, done as nat);
            if done < speed {
                lemma_run_halts(old(self)@, rs, done as nat, speed as nat);
            }
        }
        if !halted {
            self.update_timers();
        }
        assert((self@, status) == old(self)@.cycle(rs));
        status
    }

    /// Whether the machine executes instructions, rather than waiting for a
    /// key.
    pub fn is_running(&self) -> (b: bool)
        ensures
            b == (self@.run_state == RunState::Running),
    {
        match self.run_state {
            RunState::Running => true,
            RunState::WaitingForKey(_) => false,
        }
    }

    /// The 4096 bytes of memory.
    pub fn memory(&self) -> (memory: &[u8; 0x1000])
        ensures
            memory@ == self@.memory,
    {
        &self.memory
    }

    /// The sixteen general registers.
    pub fn v(&self) -> (v: &[u8; 0x10])
        ensures
            v@ == self@.v,
    {
        &self.v
    }

    /// The sixteen slots of the call stack; those from `sp` on are zero
    /// unless a program image put something else there.
    pub fn stack(&self) -> (stack: &[u16; 0x10])
        ensures
            stack@ == self@.stack,
    {
        &self.stack
    }

    /// The stack pointer: the number of pending calls, at most 16.
    pub fn sp(&self) -> (sp: u8)
        ensures
            sp == self@.sp,
            sp <= 16,
    {
        proof {
            use_type_invariant(self);
        }
        self.sp
    }

    /// A snapshot of the display: 2048 cells, row by row, 64 to a row, each
    /// 0 (dark) or 1 (lit).
    pub fn display(&self) -> (display: &[u8; 2048])
        ensures
            display@ == self@.display,
            forall|k: int| 0 <= k < 2048 ==> #[trigger] display@[k] <= 1,
    {
        proof {
            use_type_invariant(self);
        }
        &self.display
    }

    /// For each of the sixteen keys, whether it is held down.
    pub fn keyboard(&self) -> (keyboard: &[bool; 0x10])
        ensures
            keyboard@ == self@.keypad,
    {
        &self.keyboard
    }

    /// Whether the machine runs or waits for a key, and for which register.
    pub fn run_state(&self) -> (state: RunState)
        ensures
            state == self@.run_state,
    {
        self.run_state
    }

    /// The number of instructions executed per cycle.
    pub fn speed(&self) -> (speed: u8)
        ensures
            speed == self@.speed,
    {
        self.speed
    }

    /// Sets the number of instructions executed per cycle.
    pub fn set_speed(&mut self, speed: u8)
        ensures
            final(self)@ == (Machine { speed, ..old(self)@ }),
    {
        proof {
            use_type_invariant(&*self);
        }
        self.speed = speed;
    }

    /// The program counter: the address of the next instruction.
    pub fn pc(&self) -> (pc: u16)
        ensures
            pc == self@.pc,
    {
        self.pc
    }

    /// The address register `I`.
    pub fn i(&self) -> (i: u16)
        ensures
            i == self@.i,
    {
        self.i
    }

    /// The delay timer.
    pub fn dt(&self) -> (dt: u8)
        ensures
            dt == self@.dt,
    {
        self.dt
    }

    /// The sound timer. While it is not zero a tone should sound.
    pub fn st(&self) -> (st: u8)
        ensures
            st == self@.st,
    {
        self.st
    }

    /// Decrements each timer that is not yet zero.
    pub fn update_timers(&mut self)
        ensures
            final(self)@ == old(self)@.tick(),
    {
        proof {
            use_type_invariant(&*self);
        }
        if self.dt > 0 {
            self.dt -= 1;
        }
        if self.st > 0 {
            self.st -= 1;
        }
    }
}

} // verus!
