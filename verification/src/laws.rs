use vstd::prelude::*;
use crate::error::Error;
use crate::font::FONT;
use crate::machine::{Machine, RunState, op_family, op_x, op_y, op_kk, op_n, flag, ticked};
use crate::sprite::{covers, draw, collides};

verus! {

/// Loading is faithful: once the font and a program image that fits have been
/// loaded, in either order, byte `k` of the image stands at address
/// `0x200 + k` and the first 80 bytes of memory are the font.
pub proof fn lemma_loaded_image(m: Machine, rom: Seq<u8>)
    requires
        m.wf(),
        rom.len() <= 0x1000 - 0x200,
    ensures
        forall|k: int|
            0 <= k < rom.len() ==> m.with_font().with_rom(rom).memory[0x200 + k] == rom[k],
        m.with_font().with_rom(rom).memory.subrange(0, 0x50) == FONT@,
        m.with_rom(rom).with_font() == m.with_font().with_rom(rom),
{
    assert(m.with_rom(rom).with_font().memory =~= m.with_font().with_rom(rom).memory);
    assert(m.with_font().with_rom(rom).memory.subrange(0, 0x50) =~= FONT@);
}

/// `6xkk` puts `kk` into `V[x]`: read right after the instruction, the
/// register holds `kk`. Nothing else changes but the program counter.
pub proof fn lemma_load_immediate(m: Machine, op: u16, rnd: u8)
    requires
        m.wf(),
        m.run_state == RunState::Running,
        m.fetch() == Ok::<u16, Error>(op),
        op_family(op) == 0x6,
    ensures
        m.step(rnd) matches Ok(next) && next.v[op_x(op)] == op_kk(op) && next == (Machine {
            v: m.v.update(op_x(op), op_kk(op)),
            ..m.advanced()
        }),
{
    reveal(Machine::step);
}

/// `7xkk` has no flag: it changes `V[x]` and no other register, so `VF` keeps
/// its value unless `x` is 15. Adding zero changes no register at all.
pub proof fn lemma_add_immediate(m: Machine, op: u16, rnd: u8)
    requires
        m.wf(),
        m.run_state == RunState::Running,
        m.fetch() == Ok::<u16, Error>(op),
        op_family(op) == 0x7,
    ensures
        m.step(rnd) matches Ok(next) && {
            &&& next.v[op_x(op)] == (m.v[op_x(op)] + op_kk(op)) % 256
            &&& forall|r: int| 0 <= r < 16 && r != op_x(op) ==> next.v[r] == m.v[r]
            &&& op_kk(op) == 0 ==> next == m.advanced()
        },
{
    reveal(Machine::step);
    if op_kk(op) == 0 {
        assert(m.step(rnd)->Ok_0.v =~= m.v);
    }
}

/// `8xy4` reports the carry: for `x` other than 15, `VF` is 1 exactly when
/// the sum of the two registers exceeds 255, and 0 otherwise, and `V[x]` holds
/// the low eight bits of the sum.
pub proof fn lemma_add_registers_carry(m: Machine, op: u16, rnd: u8)
    requires
        m.wf(),
        m.run_state == RunState::Running,
        m.fetch() == Ok::<u16, Error>(op),
        op_family(op) == 0x8,
        op_n(op) == 0x4,
        op_x(op) != 15,
    ensures
        m.step(rnd) matches Ok(next) && {
            &&& next.v[15] == flag(m.v[op_x(op)] + m.v[op_y(op)] > 255)
            &&& next.v[op_x(op)] == (m.v[op_x(op)] + m.v[op_y(op)]) % 256
        },
{
    reveal(Machine::step);
}

/// Drawing is its own inverse: a sprite drawn twice at the same coordinates
/// leaves every display cell as it was.
pub proof fn lemma_draw_twice_restores(display: Seq<u8>, sprite: Seq<u8>, vx: int, vy: int)
    requires
        forall|k: int| 0 <= k < display.len() ==> #[trigger] display[k] <= 1,
    ensures
        draw(draw(display, sprite, vx, vy), sprite, vx, vy) == display,
{
    assert(draw(draw(display, sprite, vx, vy), sprite, vx, vy) =~= display);
}

/// The flag of each of two draws of one sprite at the same coordinates: the
/// first reports a collision exactly when a cell under the sprite was lit
/// beforehand, the second exactly when a cell under the sprite was dark
/// beforehand.
pub proof fn lemma_draw_twice_flags(display: Seq<u8>, sprite: Seq<u8>, vx: int, vy: int)
    requires
        forall|k: int| 0 <= k < display.len() ==> #[trigger] display[k] <= 1,
    ensures
        collides(display, sprite, vx, vy) <==> exists|k: int|
            0 <= k < display.len() && #[trigger] covers(sprite, vx, vy, k) && display[k] == 1,
        collides(draw(display, sprite, vx, vy), sprite, vx, vy) <==> exists|k: int|
            0 <= k < display.len() && #[trigger] covers(sprite, vx, vy, k) && display[k] == 0,
{
    let once = draw(display, sprite, vx, vy);
    if collides(display, sprite, vx, vy) {
        let k = choose|k: int|
            0 <= k < display.len() && #[trigger] covers(sprite, vx, vy, k) && display[k] != 0;
        assert(display[k] <= 1);
    }
    if collides(once, sprite, vx, vy) {
        let k = choose|k: int|
            0 <= k < once.len() && #[trigger] covers(sprite, vx, vy, k) && once[k] != 0;
        assert(display[k] == 0);
    }
    if exists|k: int|
        0 <= k < display.len() && #[trigger] covers(sprite, vx, vy, k) && display[k] == 0 {
        let k = choose|k: int|
            0 <= k < display.len() && #[trigger] covers(sprite, vx, vy, k) && display[k] == 0;
        assert(once[k] != 0);
    }
}

/// The second of two draws of one sprite at the same coordinates reports no
/// collision only if the first reported none, that is, only if nothing lit lay
/// under the sprite. This holds unless the sprite covers a cell and every cell
/// it covers was lit beforehand.
pub proof fn lemma_second_draw_silent(display: Seq<u8>, sprite: Seq<u8>, vx: int, vy: int)
    requires
        forall|k: int| 0 <= k < display.len() ==> #[trigger] display[k] <= 1,
        !((exists|k: int| 0 <= k < display.len() && #[trigger] covers(sprite, vx, vy, k)) && (
        forall|k: int|
            0 <= k < display.len() && #[trigger] covers(sprite, vx, vy, k) ==> display[k] == 1)),
    ensures
        !collides(draw(display, sprite, vx, vy), sprite, vx, vy) ==> !collides(
            display,
            sprite,
            vx,
            vy,
        ),
{
    lemma_draw_twice_flags(display, sprite, vx, vy);
}

/// `Dxyn` executed twice in a row, with coordinate registers other than `VF`,
/// leaves the display as it was before the first.
pub proof fn lemma_redraw_restores_display(m: Machine, op: u16, rnd1: u8, rnd2: u8)
    requires
        m.wf(),
        m.run_state == RunState::Running,
        m.fetch() == Ok::<u16, Error>(op),
        op_family(op) == 0xD,
        op_x(op) != 15,
        op_y(op) != 15,
    ensures
        m.step(rnd1) matches Ok(once) ==> (once.fetch() == Ok::<u16, Error>(op) ==> (once.step(
            rnd2,
        ) matches Ok(twice) && twice.display == m.display)),
{
    reveal(Machine::step);
    if m.step(rnd1) is Ok {
        let once = m.step(rnd1)->Ok_0;
        if once.fetch() == Ok::<u16, Error>(op) {
            let sprite = m.sprite_at(op_n(op));
            assert(once.sprite_at(op_n(op)) =~= sprite);
            lemma_draw_twice_restores(
                m.display,
                sprite,
                m.v[op_x(op)] as int,
                m.v[op_y(op)] as int,
            );
        }
    }
}

/// Returning with an empty call stack is an error, and with a stack that is
/// not empty it is none.
pub proof fn lemma_return_needs_caller(m: Machine, rnd: u8)
    requires
        m.wf(),
        m.run_state == RunState::Running,
        m.fetch() == Ok::<u16, Error>(0x00EEu16),
    ensures
        m.sp == 0 <==> m.step(rnd) == Err::<Machine, Error>(Error::StackUnderflow),
        m.sp > 0 ==> (m.step(rnd) matches Ok(next) && next.sp == m.sp - 1 && next.pc
            == m.stack[m.sp - 1]),
{
    reveal(Machine::step);
}

/// A call succeeds while fewer than sixteen calls are pending, and only then;
/// it raises the stack pointer by one and records the address of the
/// instruction after the call.
pub proof fn lemma_call_depth(m: Machine, op: u16, rnd: u8)
    requires
        m.wf(),
        m.run_state == RunState::Running,
        m.fetch() == Ok::<u16, Error>(op),
        op_family(op) == 0x2,
    ensures
        m.sp == 16 <==> m.step(rnd) == Err::<Machine, Error>(Error::StackOverflow),
        m.sp < 16 ==> (m.step(rnd) matches Ok(next) && next.sp == m.sp + 1 && next.stack[m.sp as int]
            == m.pc + 2),
{
    reveal(Machine::step);
}

/// The stack pointer moves by at most one per instruction: up by one on a
/// call, down by one on a return, and not at all otherwise.
pub proof fn lemma_stack_pointer_moves(m: Machine, rnd: u8)
    requires
        m.wf(),
    ensures
        m.step(rnd) matches Ok(next) ==> {
            let op = m.fetch()->Ok_0;
            if m.run_state != RunState::Running {
                next.sp == m.sp
            } else if op_family(op) == 0x2 {
                next.sp == m.sp + 1
            } else if op == 0x00EE {
                next.sp == m.sp - 1
            } else {
                next.sp == m.sp
            }
        },
{
    reveal(Machine::step);
}

/// Only `Cxkk` looks at the random byte.
pub proof fn lemma_only_random_instruction_reads_byte(m: Machine, rnd1: u8, rnd2: u8)
    requires
        m.wf(),
        !(m.fetch() matches Ok(op) && op_family(op) == 0xC),
    ensures
        m.step(rnd1) == m.step(rnd2),
{
    reveal(Machine::step);
}

/// Every instruction keeps the machine well-formed.
pub proof fn lemma_step_preserves_wf(m: Machine, rnd: u8)
    requires
        m.wf(),
    ensures
        m.step(rnd) matches Ok(next) ==> next.wf(),
{
    reveal(Machine::step);
}

/// Key events keep the machine well-formed.
pub proof fn lemma_key_events_preserve_wf(m: Machine, code: u8)
    requires
        m.wf(),
        code < 16,
    ensures
        m.key_down(code).wf(),
        m.key_up(code).wf(),
{
}

/// A run of any length keeps the machine well-formed.
pub proof fn lemma_run_preserves_wf(m: Machine, rs: Seq<u8>, n: nat)
    requires
        m.wf(),
    ensures
        m.run(rs, n).0.wf(),
    decreases n,
{
    if n > 0 {
        lemma_run_preserves_wf(m, rs, (n - 1) as nat);
        lemma_step_preserves_wf(m.run(rs, (n - 1) as nat).0, rs[n - 1]);
    }
}

/// A cycle keeps the machine well-formed.
pub proof fn lemma_cycle_preserves_wf(m: Machine, rs: Seq<u8>)
    requires
        m.wf(),
    ensures
        m.cycle(rs).0.wf(),
{
    lemma_run_preserves_wf(m, rs, m.speed as nat);
}

/// A machine that waits for a key does nothing: a run of any length leaves
/// it as it is.
pub proof fn lemma_waiting_run_is_idle(m: Machine, rs: Seq<u8>, n: nat)
    requires
        m.run_state != RunState::Running,
    ensures
        m.run(rs, n) == (m, Ok::<(), Error>(())),
    decreases n,
{
    reveal(Machine::step);
    if n > 0 {
        lemma_waiting_run_is_idle(m, rs, (n - 1) as nat);
    }
}

/// A cycle of a machine that waits for a key changes nothing, the timers
/// included.
pub proof fn lemma_waiting_cycle_is_idle(m: Machine, rs: Seq<u8>)
    requires
        m.run_state != RunState::Running,
    ensures
        m.cycle(rs) == (m, Ok::<(), Error>(())),
{
    lemma_waiting_run_is_idle(m, rs, m.speed as nat);
}

/// `Fx0A` suspends the machine until a key goes down. A release of any key
/// leaves it waiting, and a cycle of the waiting machine changes nothing. The
/// next press of a key that is not held stores the key's code in `V[x]` and
/// resumes execution at the instruction after the `Fx0A`.
pub proof fn lemma_key_wait(m: Machine, op: u16, rnd: u8, released: u8, pressed: u8, rs: Seq<u8>)
    requires
        m.wf(),
        m.run_state == RunState::Running,
        m.fetch() == Ok::<u16, Error>(op),
        op_family(op) == 0xF,
        op_kk(op) == 0x0A,
        released < 16,
        pressed < 16,
        pressed == released || !m.keypad[pressed as int],
    ensures
        m.step(rnd) matches Ok(waiting) && {
            let still = waiting.key_up(released);
            let resumed = still.key_down(pressed);
            &&& waiting.run_state == RunState::WaitingForKey(op_x(op) as u8)
            &&& waiting.pc == m.pc + 2
            &&& still == (Machine { keypad: waiting.keypad.update(released as int, false), ..waiting })
            &&& still.cycle(rs) == (still, Ok::<(), Error>(()))
            &&& resumed.run_state == RunState::Running
            &&& resumed.v[op_x(op)] == pressed
            &&& resumed.pc == m.pc + 2
        },
{
    reveal(Machine::step);
    let waiting = m.step(rnd)->Ok_0;
    let still = waiting.key_up(released);
    lemma_waiting_cycle_is_idle(still, rs);
}

/// Whether the instruction at the program counter is `Fx15`, which sets the
/// delay timer.
pub open spec fn at_delay_store(m: Machine) -> bool {
    m.fetch() matches Ok(op) && op_family(op) == 0xF && op_kk(op) == 0x15
}

/// Whether the instruction at the program counter is `Fx18`, which sets the
/// sound timer.
pub open spec fn at_sound_store(m: Machine) -> bool {
    m.fetch() matches Ok(op) && op_family(op) == 0xF && op_kk(op) == 0x18
}

/// Only `Fx15` changes the delay timer and only `Fx18` the sound timer.
pub proof fn lemma_step_keeps_timers(m: Machine, rnd: u8)
    requires
        m.wf(),
    ensures
        m.step(rnd) matches Ok(next) ==> {
            &&& !at_delay_store(m) ==> next.dt == m.dt
            &&& !at_sound_store(m) ==> next.st == m.st
            &&& next.speed == m.speed
        },
{
    reveal(Machine::step);
}

/// Instructions that do not set the delay timer leave it alone, however many
/// of them run.
pub proof fn lemma_run_keeps_delay_timer(m: Machine, rs: Seq<u8>, n: nat)
    requires
        m.wf(),
        forall|k: nat| k < n ==> !at_delay_store(#[trigger] m.run(rs, k).0),
    ensures
        m.run(rs, n).0.dt == m.dt,
    decreases n,
{
    if n > 0 {
        let before = (n - 1) as nat;
        lemma_run_keeps_delay_timer(m, rs, before);
        lemma_run_preserves_wf(m, rs, before);
        assert(!at_delay_store(m.run(rs, before).0));
        lemma_step_keeps_timers(m.run(rs, before).0, rs[n - 1]);
    }
}

/// The delay timer goes down by exactly one per cycle, whatever the number of
/// instructions per cycle, and stays at zero once there: a cycle that runs to
/// its end without a failure or a key wait, and in which no instruction sets
/// the delay timer, leaves it one lower, or at zero if it was zero.
pub proof fn lemma_cycle_ticks_delay_timer_once(m: Machine, rs: Seq<u8>)
    requires
        m.wf(),
        forall|k: nat| k < m.speed ==> !at_delay_store(#[trigger] m.run(rs, k).0),
        m.cycle(rs).1 is Ok,
        m.cycle(rs).0.run_state == RunState::Running,
    ensures
        m.cycle(rs).0.dt == ticked(m.dt),
        m.dt > 0 ==> m.cycle(rs).0.dt == m.dt - 1,
        m.dt == 0 ==> m.cycle(rs).0.dt == 0,
{
    lemma_run_keeps_delay_timer(m, rs, m.speed as nat);
}

} // verus!
