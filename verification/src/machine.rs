use vstd::prelude::*;
use crate::error::Error;
use crate::font::FONT;
use crate::sprite::{draw, collides};

verus! {

/// Whether the machine executes instructions or is blocked on a key press.
#[derive(Clone, Copy, Debug, PartialEq, Eq, Structural)]
pub enum RunState {
    /// Instructions are fetched and executed.
    Running,
    /// Execution is suspended until a key goes down; its code is then stored
    /// in the register with this index.
    WaitingForKey(u8),
}

/// The mathematical state of a CHIP-8 machine. The executable emulator is
/// viewed as a value of this type, and every contract is stated over it.
#[verifier::ext_equal]
pub struct Machine {
    /// The 4096 bytes of memory.
    pub memory: Seq<u8>,
    /// The sixteen general registers; register 15 doubles as the flag.
    pub v: Seq<u8>,
    /// The sixteen slots of the call stack.
    pub stack: Seq<u16>,
    /// Index of the next free stack slot; 0 when the stack is empty.
    pub sp: u8,
    /// The 2048 display cells, row-major, each 0 or 1.
    pub display: Seq<u8>,
    /// For each of the sixteen keys, whether it is held down.
    pub keypad: Seq<bool>,
    /// Running, or waiting for a key.
    pub run_state: RunState,
    /// Instructions executed per cycle.
    pub speed: u8,
    /// Address of the next instruction.
    pub pc: u16,
    /// The address register `I`.
    pub i: u16,
    /// The delay timer.
    pub dt: u8,
    /// The sound timer.
    pub st: u8,
}

/// The high nibble of an instruction word, which selects its family.
pub open spec fn op_family(op: u16) -> int {
    op as int / 4096
}

/// Bits 8 to 11 of an instruction word: a register index.
pub open spec fn op_x(op: u16) -> int {
    (op as int / 256) % 16
}

/// Bits 4 to 7 of an instruction word: a register index.
pub open spec fn op_y(op: u16) -> int {
    (op as int / 16) % 16
}

/// The low byte of an instruction word.
pub open spec fn op_kk(op: u16) -> u8 {
    (op as int % 256) as u8
}

/// The low twelve bits of an instruction word: an address.
pub open spec fn op_nnn(op: u16) -> u16 {
    (op as int % 4096) as u16
}

/// The low nibble of an instruction word.
pub open spec fn op_n(op: u16) -> int {
    op as int % 16
}

/// The big-endian word made of two bytes.
pub open spec fn word(hi: u8, lo: u8) -> u16 {
    (hi as int * 256 + lo as int) as u16
}

/// A timer after one tick: one less, but never below zero.
pub open spec fn ticked(t: u8) -> u8 {
    if t > 0 {
        (t - 1) as u8
    } else {
        0
    }
}

/// The flag value for a condition.
pub open spec fn flag(b: bool) -> u8 {
    if b {
        1
    } else {
        0
    }
}

impl Machine {
    /// The shape every reachable state has: the stores have their fixed sizes,
    /// the stack pointer is at most 16, display cells are 0 or 1, and a pending
    /// wait names a register.
    pub open spec fn wf(self) -> bool {
        &&& self.memory.len() == 4096
        &&& self.v.len() == 16
        &&& self.stack.len() == 16
        &&& self.sp <= 16
        &&& self.display.len() == 2048
        &&& forall|k: int| 0 <= k < 2048 ==> #[trigger] self.display[k] <= 1
        &&& self.keypad.len() == 16
        &&& match self.run_state {
            RunState::Running => true,
            RunState::WaitingForKey(r) => r < 16,
        }
    }

    /// What an operation that may fail leaves behind: where `t` is a new
    /// state, the machine is in it and the operation reports success; where `t`
    /// is an error, the machine is as it was and the operation reports that
    /// error.
    pub open spec fn leads_to(
        self,
        t: Result<Machine, Error>,
        after: Machine,
        r: Result<(), Error>,
    ) -> bool {
        match t {
            Ok(m) => after == m && r == Ok::<(), Error>(()),
            Err(e) => after == self && r == Err::<(), Error>(e),
        }
    }

    /// The state of a new machine: everything zero, no key down, running from
    /// address 0x200 at ten instructions per cycle.
    pub open spec fn initial() -> Machine {
        Machine {
            memory: Seq::new(4096, |a: int| 0u8),
            v: Seq::new(16, |r: int| 0u8),
            stack: Seq::new(16, |k: int| 0u16),
            sp: 0,
            display: Seq::new(2048, |k: int| 0u8),
            keypad: Seq::new(16, |k: int| false),
            run_state: RunState::Running,
            speed: 10,
            pc: 0x200,
            i: 0,
            dt: 0,
            st: 0,
        }
    }

    /// The machine with the built-in font in the first 80 bytes of memory.
    pub open spec fn with_font(self) -> Machine {
        Machine {
            memory: Seq::new(
                4096,
                |a: int|
                    if a < 80 {
                        FONT[a]
                    } else {
                        self.memory[a]
                    },
            ),
            ..self
        }
    }

    /// The machine with `rom` copied into memory from address 0x200 on.
    pub open spec fn with_rom(self, rom: Seq<u8>) -> Machine {
        Machine {
            memory: Seq::new(
                4096,
                |a: int|
                    if 0x200 <= a < 0x200 + rom.len() {
                        rom[a - 0x200]
                    } else {
                        self.memory[a]
                    },
            ),
            ..self
        }
    }

    /// The machine with every display cell dark.
    pub open spec fn cleared(self) -> Machine {
        Machine { display: Seq::new(2048, |k: int| 0u8), ..self }
    }

    /// The machine after the key `code` went down, for `code < 16`. A key that
    /// is already held changes nothing. A fresh press is recorded, and resolves
    /// a pending wait: the code goes to the awaited register and the machine
    /// runs again.
    pub open spec fn key_down(self, code: u8) -> Machine {
        if self.keypad[code as int] {
            self
        } else {
            let pressed = Machine { keypad: self.keypad.update(code as int, true), ..self };
            match self.run_state {
                RunState::Running => pressed,
                RunState::WaitingForKey(r) => Machine {
                    v: self.v.update(r as int, code),
                    run_state: RunState::Running,
                    ..pressed
                },
            }
        }
    }

    /// The machine after the key `code` was released, for `code < 16`.
    pub open spec fn key_up(self, code: u8) -> Machine {
        Machine { keypad: self.keypad.update(code as int, false), ..self }
    }

    /// The machine after one tick of both timers.
    pub open spec fn tick(self) -> Machine {
        Machine { dt: ticked(self.dt), st: ticked(self.st), ..self }
    }

    /// Whether two bytes can be fetched at the program counter.
    pub open spec fn can_fetch(self) -> bool {
        self.pc as int + 1 < 4096
    }

    /// The instruction word at the program counter.
    pub open spec fn fetch(self) -> Result<u16, Error> {
        if self.can_fetch() {
            Ok(word(self.memory[self.pc as int], self.memory[self.pc as int + 1]))
        } else {
            Err(Error::MemoryOutOfBounds)
        }
    }

    /// The error for a word that is no instruction, fetched at the current
    /// program counter.
    pub open spec fn unknown(self, op: u16) -> Error {
        Error::UnknownInstruction { opcode: op, pc: self.pc }
    }

    /// The machine with the program counter moved past the current instruction.
    pub open spec fn advanced(self) -> Machine {
        Machine { pc: (self.pc + 2) as u16, ..self }
    }

    /// The machine with the program counter moved past the current instruction
    /// and, if `cond` holds, past the next one too.
    pub open spec fn skipped_if(self, cond: bool) -> Machine {
        if cond {
            Machine { pc: (self.pc + 4) as u16, ..self }
        } else {
            self.advanced()
        }
    }

    /// The machine with the program counter moved past the current instruction
    /// and the registers replaced.
    pub open spec fn with_registers(self, v: Seq<u8>) -> Machine {
        Machine { v, ..self.advanced() }
    }

    /// Family 0: `00E0` clears the display; `00EE` returns from a subroutine,
    /// popping the return address and zeroing its slot.
    pub open spec fn exec_system(self, op: u16) -> Result<Machine, Error> {
        if op == 0x00E0 {
            Ok(self.advanced().cleared())
        } else if op == 0x00EE {
            if self.sp == 0 {
                Err(Error::StackUnderflow)
            } else {
                let top = self.sp - 1;
                Ok(
                    Machine {
                        pc: self.stack[top],
                        sp: top as u8,
                        stack: self.stack.update(top, 0),
                        ..self
                    },
                )
            }
        } else {
            Err(self.unknown(op))
        }
    }

    /// `2nnn`: pushes the address of the next instruction and jumps to `nnn`.
    pub open spec fn exec_call(self, nnn: u16) -> Result<Machine, Error> {
        if self.sp >= 16 {
            Err(Error::StackOverflow)
        } else {
            Ok(
                Machine {
                    pc: nnn,
                    sp: (self.sp + 1) as u8,
                    stack: self.stack.update(self.sp as int, (self.pc + 2) as u16),
                    ..self
                },
            )
        }
    }

    /// The registers after the arithmetic instruction `8xyn`, or `None` if `n`
    /// selects no operation. Where an operation sets the flag, the flag is
    /// written first and the result second, so that with `x == 15` the result
    /// stays in `VF`.
    pub open spec fn alu(self, x: int, y: int, n: int) -> Option<Seq<u8>> {
        let vx = self.v[x];
        let vy = self.v[y];
        if n == 0 {
            Some(self.v.update(x, vy))
        } else if n == 1 {
            Some(self.v.update(x, vx | vy))
        } else if n == 2 {
            Some(self.v.update(x, vx & vy))
        } else if n == 3 {
            Some(self.v.update(x, vx ^ vy))
        } else if n == 4 {
            Some(self.v.update(15, flag(vx + vy > 255)).update(x, ((vx + vy) % 256) as u8))
        } else if n == 5 {
            Some(self.v.update(15, flag(vx > vy)).update(x, ((vx - vy) % 256) as u8))
        } else if n == 6 {
            let flagged = self.v.update(15, vx & 0x0F);
            Some(flagged.update(x, flagged[x] >> 1u8))
        } else if n == 7 {
            Some(self.v.update(15, flag(vy > vx)).update(x, ((vy - vx) % 256) as u8))
        } else if n == 0xE {
            let flagged = self.v.update(15, vx & 0x80);
            Some(flagged.update(x, ((flagged[x] * 2) % 256) as u8))
        } else {
            None
        }
    }

    /// Family 8: register-to-register arithmetic.
    pub open spec fn exec_alu(self, op: u16) -> Result<Machine, Error> {
        match self.alu(op_x(op), op_y(op), op_n(op)) {
            Some(v) => Ok(self.with_registers(v)),
            None => Err(self.unknown(op)),
        }
    }

    /// The `n` bytes of memory from `I` on, as the rows of a sprite.
    pub open spec fn sprite_at(self, n: int) -> Seq<u8> {
        Seq::new(n as nat, |row: int| self.memory[self.i + row])
    }

    /// `Dxyn`: XORs the `n`-row sprite at `I` onto the display at
    /// `(V[x], V[y])`, and sets `VF` to 1 if a lit cell went dark, else to 0.
    pub open spec fn exec_draw(self, op: u16) -> Result<Machine, Error> {
        let n = op_n(op);
        let vx = self.v[op_x(op)] as int;
        let vy = self.v[op_y(op)] as int;
        if n > 0 && self.i + n > 4096 {
            Err(Error::MemoryOutOfBounds)
        } else {
            let sprite = self.sprite_at(n);
            Ok(
                Machine {
                    display: draw(self.display, sprite, vx, vy),
                    v: self.v.update(15, flag(collides(self.display, sprite, vx, vy))),
                    ..self.advanced()
                },
            )
        }
    }

    /// Family E: skips on the state of the key whose code is in `V[x]`.
    pub open spec fn exec_key_skip(self, op: u16) -> Result<Machine, Error> {
        let kk = op_kk(op);
        let vx = self.v[op_x(op)];
        if kk != 0x9E && kk != 0xA1 {
            Err(self.unknown(op))
        } else if vx >= 16 {
            Err(Error::InvalidKeyCode)
        } else {
            let pressed = self.keypad[vx as int];
            Ok(
                self.skipped_if(
                    if kk == 0x9E {
                        pressed
                    } else {
                        !pressed
                    },
                ),
            )
        }
    }

    /// Memory after `Fx33`: the decimal digits of `vx` at `I`, `I + 1`, `I + 2`.
    pub open spec fn bcd_stored(self, vx: u8) -> Seq<u8> {
        self.memory.update(self.i as int, vx / 100).update(
            self.i + 1,
            ((vx / 10) % 10) as u8,
        ).update(self.i + 2, vx % 10)
    }

    /// Memory after `Fx55` with `V[x] == last`: bytes `I ..= I + last` hold
    /// `V[0], V[1], ..`, and zero from the seventeenth on.
    pub open spec fn registers_stored(self, last: int) -> Seq<u8> {
        Seq::new(
            4096,
            |a: int|
                if self.i <= a <= self.i + last {
                    if a - self.i < 16 {
                        self.v[a - self.i]
                    } else {
                        0u8
                    }
                } else {
                    self.memory[a]
                },
        )
    }

    /// The number of the last register that `Fx65` loads when `V[x] == last`.
    pub open spec fn last_loaded(last: int) -> int {
        if last < 16 {
            last
        } else {
            15
        }
    }

    /// Registers after `Fx65` with `V[x] == last`: `V[0] ..= V[min(last, 15)]`
    /// hold the bytes at `I, I + 1, ..`.
    pub open spec fn registers_loaded(self, last: int) -> Seq<u8> {
        Seq::new(
            16,
            |r: int|
                if r <= Self::last_loaded(last) {
                    self.memory[self.i + r]
                } else {
                    self.v[r]
                },
        )
    }

    /// Family F: timers, the key wait, the address register, and transfers
    /// between registers and memory. `Fx55` and `Fx65` take the number of the
    /// last register from the value in `V[x]`.
    pub open spec fn exec_misc(self, op: u16) -> Result<Machine, Error> {
        let x = op_x(op);
        let kk = op_kk(op);
        let vx = self.v[x];
        let next = self.advanced();
        if kk == 0x07 {
            Ok(Machine { v: self.v.update(x, self.dt), ..next })
        } else if kk == 0x0A {
            Ok(Machine { run_state: RunState::WaitingForKey(x as u8), ..next })
        } else if kk == 0x15 {
            Ok(Machine { dt: vx, ..next })
        } else if kk == 0x18 {
            Ok(Machine { st: vx, ..next })
        } else if kk == 0x1E {
            Ok(Machine { i: ((self.i + vx) % 65536) as u16, ..next })
        } else if kk == 0x29 {
            Ok(Machine { i: (vx * 5) as u16, ..next })
        } else if kk == 0x33 {
            if self.i + 2 < 4096 {
                Ok(Machine { memory: self.bcd_stored(vx), ..next })
            } else {
                Err(Error::MemoryOutOfBounds)
            }
        } else if kk == 0x55 {
            if self.i + vx < 4096 {
                Ok(Machine { memory: self.registers_stored(vx as int), ..next })
            } else {
                Err(Error::MemoryOutOfBounds)
            }
        } else if kk == 0x65 {
            if self.i + Self::last_loaded(vx as int) < 4096 {
                Ok(Machine { v: self.registers_loaded(vx as int), ..next })
            } else {
                Err(Error::MemoryOutOfBounds)
            }
        } else {
            Err(self.unknown(op))
        }
    }

    /// The effect of the instruction word `op`, found at the program counter,
    /// with `rnd` as the random byte that `Cxkk` uses. The result has the
    /// program counter past the instruction, or where a jump, call, return or
    /// skip put it.
    pub open spec fn execute(self, op: u16, rnd: u8) -> Result<Machine, Error> {
        let family = op_family(op);
        let x = op_x(op);
        let y = op_y(op);
        let kk = op_kk(op);
        let nnn = op_nnn(op);
        let vx = self.v[x];
        let vy = self.v[y];
        if family == 0x0 {
            self.exec_system(op)
        } else if family == 0x1 {
            Ok(Machine { pc: nnn, ..self })
        } else if family == 0x2 {
            self.exec_call(nnn)
        } else if family == 0x3 {
            Ok(self.skipped_if(vx == kk))
        } else if family == 0x4 {
            Ok(self.skipped_if(vx != kk))
        } else if family == 0x5 {
            Ok(self.skipped_if(vx == vy))
        } else if family == 0x6 {
            Ok(self.with_registers(self.v.update(x, kk)))
        } else if family == 0x7 {
            Ok(self.with_registers(self.v.update(x, ((vx + kk) % 256) as u8)))
        } else if family == 0x8 {
            self.exec_alu(op)
        } else if family == 0x9 {
            Ok(self.skipped_if(vx != vy))
        } else if family == 0xA {
            Ok(Machine { i: nnn, ..self.advanced() })
        } else if family == 0xB {
            Ok(Machine { pc: (nnn + self.v[0]) as u16, ..self })
        } else if family == 0xC {
            Ok(self.with_registers(self.v.update(x, rnd & kk)))
        } else if family == 0xD {
            self.exec_draw(op)
        } else if family == 0xE {
            self.exec_key_skip(op)
        } else {
            self.exec_misc(op)
        }
    }

    /// One instruction: fetch the word at the program counter and execute it.
    /// A machine that waits for a key does neither and stays as it is.
    #[verifier::opaque]
    pub open spec fn step(self, rnd: u8) -> Result<Machine, Error> {
        if self.run_state != RunState::Running {
            Ok(self)
        } else {
            match self.fetch() {
                Ok(op) => self.execute(op, rnd),
                Err(e) => Err(e),
            }
        }
    }

    /// One more instruction after a run that ended in `reached`, with random
    /// byte `rnd`. Nothing happens after a failure. An instruction that fails
    /// leaves the state and reports its error.
    pub open spec fn continued(reached: (Machine, Result<(), Error>), rnd: u8) -> (
        Machine,
        Result<(), Error>,
    ) {
        let (m, r) = reached;
        if r is Err {
            reached
        } else {
            match m.step(rnd) {
                Ok(next) => (next, Ok(())),
                Err(e) => (m, Err(e)),
            }
        }
    }

    /// Up to `n` instructions, the `k`-th with random byte `rs[k]`. Execution
    /// stops early, leaving the state reached, at the first instruction that
    /// fails and as soon as the machine waits for a key.
    pub open spec fn run(self, rs: Seq<u8>, n: nat) -> (Machine, Result<(), Error>)
        decreases n,
    {
        if n == 0 {
            (self, Ok(()))
        } else {
            Self::continued(self.run(rs, (n - 1) as nat), rs[n - 1])
        }
    }

    /// One cycle: `speed` instructions, then one tick of the timers. After a
    /// failure, and while the machine waits for a key, the timers stand still.
    pub open spec fn cycle(self, rs: Seq<u8>) -> (Machine, Result<(), Error>) {
        let (m, r) = self.run(rs, self.speed as nat);
        if r is Err || m.run_state != RunState::Running {
            (m, r)
        } else {
            (m.tick(), Ok(()))
        }
    }
}

/// A run of `n` instructions reads only the first `n` random bytes: two
/// sequences that agree on those lead to the same result.
pub proof fn lemma_run_reads_prefix(m: Machine, rs1: Seq<u8>, rs2: Seq<u8>, n: nat)
    requires
        n <= rs1.len(),
        n <= rs2.len(),
        forall|k: int| 0 <= k < n ==> rs1[k] == rs2[k],
    ensures
        m.run(rs1, n) == m.run(rs2, n),
    decreases n,
{
    if n > 0 {
        lemma_run_reads_prefix(m, rs1, rs2, (n - 1) as nat);
    }
}

/// A run that has failed, or has reached a machine that waits for a key,
/// goes no further: running longer gives the same result.
pub proof fn lemma_run_halts(m: Machine, rs: Seq<u8>, k: nat, n: nat)
    requires
        k <= n,
        m.run(rs, k).1 is Err || m.run(rs, k).0.run_state != RunState::Running,
    ensures
        m.run(rs, n) == m.run(rs, k),
    decreases n,
{
    reveal(Machine::step);
    if n > k {
        lemma_run_halts(m, rs, k, (n - 1) as nat);
    }
}

} // verus!
