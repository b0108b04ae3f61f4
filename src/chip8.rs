use vstd::prelude::*;

pub mod debugger;

use crate::chip8::debugger::{traced_history, traced_output, Debugger, Propagate, TraceRecord};

verus! {

/// Bytes of addressable memory.
pub const MEMORY_SIZE: usize = 4096;

/// Address at which programs are loaded and execution starts.
pub const PROGRAM_START: usize = 512;

/// Longest program that fits between the start address and the end of memory.
pub const MAX_PROGRAM_LEN: usize = 3584;

/// Return addresses the call stack can hold.
pub const STACK_SIZE: usize = 64;

pub const SCREEN_WIDTH: usize = 64;

pub const SCREEN_HEIGHT: usize = 32;

/// Cells of the frame buffer, row by row.
pub const SCREEN_CELLS: usize = 2048;

/// Hex keys on the keypad.
pub const KEY_COUNT: usize = 16;

/// Why a program could not be loaded.
#[derive(Clone, Copy, Debug, PartialEq, Eq, Structural)]
pub enum LoadError {
    /// The program does not fit in memory above the start address.
    RomTooLarge,
}

/// Why an instruction could not be executed.
#[derive(Clone, Copy, Debug, PartialEq, Eq, Structural)]
pub enum ExecError {
    /// A call with every stack slot taken.
    StackOverflow,
    /// A return with an empty stack.
    StackUnderflow,
}

/// The machine state as mathematical values.
pub ghost struct CpuView {
    pub v: Seq<u8>,
    pub i: u16,
    pub pc: u16,
    pub delay_timer: u8,
    pub sound_timer: u8,
    pub sp: u8,
    pub stack: Seq<u16>,
    pub frame_buffer: Seq<bool>,
    pub memory: Seq<u8>,
    pub keypad: Seq<bool>,
}

/// Every component has its fixed size and the stack pointer lies within the stack.
pub open spec fn valid_view(s: CpuView) -> bool {
    &&& s.v.len() == 16
    &&& s.stack.len() == STACK_SIZE
    &&& s.frame_buffer.len() == SCREEN_CELLS
    &&& s.memory.len() == MEMORY_SIZE
    &&& s.keypad.len() == KEY_COUNT
    &&& s.sp <= STACK_SIZE
}

/// A fresh machine: everything zero and cleared, execution at the start address.
pub open spec fn initial_view() -> CpuView {
    CpuView {
        v: Seq::new(16, |k: int| 0u8),
        i: 0,
        pc: PROGRAM_START as u16,
        delay_timer: 0,
        sound_timer: 0,
        sp: 0,
        stack: Seq::new(STACK_SIZE as nat, |k: int| 0u16),
        frame_buffer: Seq::new(SCREEN_CELLS as nat, |k: int| false),
        memory: Seq::new(MEMORY_SIZE as nat, |k: int| 0u8),
        keypad: Seq::new(KEY_COUNT as nat, |k: int| false),
    }
}

/// One timer tick: down by one, never below zero.
pub open spec fn timer_tick(t: u8) -> u8 {
    if t > 0 {
        (t - 1) as u8
    } else {
        0
    }
}

/// Memory after `data` is copied to the start address.
pub open spec fn loaded_memory(memory: Seq<u8>, data: Seq<u8>) -> Seq<u8> {
    Seq::new(
        memory.len(),
        |k: int|
            if PROGRAM_START <= k < PROGRAM_START + data.len() {
                data[k - PROGRAM_START]
            } else {
                memory[k]
            },
    )
}

/// Opcode fields: leading nibble, the two register nibbles, the last nibble,
/// the 12-bit address and the low byte.
pub open spec fn op_digit(op: u16) -> u16 {
    op >> 12u16
}

pub open spec fn op_x(op: u16) -> u16 {
    (op >> 8u16) & 0xFu16
}

pub open spec fn op_y(op: u16) -> u16 {
    (op >> 4u16) & 0xFu16
}

pub open spec fn op_n(op: u16) -> u16 {
    op & 0xFu16
}

pub open spec fn op_nnn(op: u16) -> u16 {
    op & 0xFFFu16
}

pub open spec fn op_kk(op: u16) -> u8 {
    (op & 0xFFu16) as u8
}

/// `pc` moved on by `k` bytes, modulo the 16-bit counter.
pub open spec fn advance(pc: u16, k: int) -> u16 {
    ((pc + k) % 0x10000) as u16
}

/// The opcode stored at the program counter, high byte first. Addresses wrap
/// at the end of memory.
pub open spec fn fetch(s: CpuView) -> u16 {
    (s.memory[s.pc as int % MEMORY_SIZE as int] * 256 + s.memory[(s.pc as int + 1) % MEMORY_SIZE as int]) as u16
}

/// Whether bit `col` (most significant first) of a sprite row is set.
pub open spec fn sprite_bit(row: u8, col: int) -> bool {
    (row >> ((7 - col) as u8)) & 1u8 == 1u8
}

/// Column offset of cell `k` from the sprite's left edge, with wraparound.
pub open spec fn sprite_col(vx: u8, k: int) -> int {
    (k % SCREEN_WIDTH as int - vx as int) % SCREEN_WIDTH as int
}

/// Row offset of cell `k` from the sprite's top edge, with wraparound.
pub open spec fn sprite_row(vy: u8, k: int) -> int {
    (k / SCREEN_WIDTH as int - vy as int) % SCREEN_HEIGHT as int
}

/// Whether a sprite of `n` rows read from `memory` at `i`, drawn at `(vx, vy)`,
/// has a set bit over cell `k`.
pub open spec fn sprite_hit(memory: Seq<u8>, i: u16, vx: u8, vy: u8, n: u16, k: int) -> bool {
    let row = sprite_row(vy, k);
    let col = sprite_col(vx, k);
    row < n && col < 8 && sprite_bit(memory[(i as int + row) % MEMORY_SIZE as int], col)
}

/// The frame buffer after the sprite is XOR-ed onto it.
pub open spec fn drawn(fb: Seq<bool>, memory: Seq<u8>, i: u16, vx: u8, vy: u8, n: u16) -> Seq<bool> {
    Seq::new(fb.len(), |k: int| fb[k] != sprite_hit(memory, i, vx, vy, n, k))
}

/// Whether drawing the sprite turns some set cell off.
pub open spec fn collides(fb: Seq<bool>, memory: Seq<u8>, i: u16, vx: u8, vy: u8, n: u16) -> bool {
    exists|k: int| 0 <= k < fb.len() && fb[k] && sprite_hit(memory, i, vx, vy, n, k)
}

pub open spec fn flag(b: bool) -> u8 {
    if b {
        1
    } else {
        0
    }
}

/// Registers after an `8xyn` instruction; `None` where `n` names none.
pub open spec fn alu(v: Seq<u8>, x: int, y: int, n: u16) -> Option<Seq<u8>> {
    let vx = v[x];
    let vy = v[y];
    if n == 0 {
        Some(v.update(x, vy))
    } else if n == 1 {
        Some(v.update(x, vx | vy))
    } else if n == 2 {
        Some(v.update(x, vx & vy))
    } else if n == 3 {
        Some(v.update(x, vx ^ vy))
    } else if n == 4 {
        Some(v.update(15, flag(vx + vy > 255)).update(x, ((vx + vy) % 256) as u8))
    } else if n == 5 {
        Some(v.update(15, flag(vx >= vy)).update(x, ((vx - vy + 256) % 256) as u8))
    } else if n == 6 {
        Some(v.update(15, vx & 1u8).update(x, vx >> 1u8))
    } else if n == 7 {
        Some(v.update(15, flag(vy >= vx)).update(x, ((vy - vx + 256) % 256) as u8))
    } else if n == 0xE {
        Some(v.update(15, (vx >> 7u8) & 1u8).update(x, ((vx * 2) % 256) as u8))
    } else {
        None
    }
}

/// The state after executing `op`, with `rnd` as the random byte that `Cxkk`
/// would draw; an error where the call stack cannot take the instruction.
pub open spec fn step(s: CpuView, op: u16, rnd: u8) -> Result<CpuView, ExecError> {
    let digit = op_digit(op);
    let x = op_x(op) as int;
    let y = op_y(op) as int;
    let n = op_n(op);
    let nnn = op_nnn(op);
    let kk = op_kk(op);
    let next = advance(s.pc, 2);
    let skip = advance(s.pc, 4);
    if op == 0x00E0 {
        Ok(CpuView { frame_buffer: Seq::new(s.frame_buffer.len(), |k: int| false), pc: next, ..s })
    } else if op == 0x00EE {
        if s.sp == 0 {
            Err(ExecError::StackUnderflow)
        } else {
            Ok(CpuView { sp: (s.sp - 1) as u8, pc: s.stack[s.sp - 1], ..s })
        }
    } else if digit == 1 {
        Ok(CpuView { pc: nnn, ..s })
    } else if digit == 2 {
        if s.sp >= STACK_SIZE {
            Err(ExecError::StackOverflow)
        } else {
            Ok(CpuView { stack: s.stack.update(s.sp as int, next), sp: (s.sp + 1) as u8, pc: nnn, ..s })
        }
    } else if digit == 3 {
        Ok(CpuView { pc: if s.v[x] == kk { skip } else { next }, ..s })
    } else if digit == 4 {
        Ok(CpuView { pc: if s.v[x] != kk { skip } else { next }, ..s })
    } else if digit == 5 && n == 0 {
        Ok(CpuView { pc: if s.v[x] == s.v[y] { skip } else { next }, ..s })
    } else if digit == 6 {
        Ok(CpuView { v: s.v.update(x, kk), pc: next, ..s })
    } else if digit == 7 {
        Ok(CpuView { v: s.v.update(x, ((s.v[x] + kk) % 256) as u8), pc: next, ..s })
    } else if digit == 8 {
        match alu(s.v, x, y, n) {
            Some(v) => Ok(CpuView { v, pc: next, ..s }),
            None => Ok(CpuView { pc: next, ..s }),
        }
    } else if digit == 9 && n == 0 {
        Ok(CpuView { pc: if s.v[x] != s.v[y] { skip } else { next }, ..s })
    } else if digit == 0xA {
        Ok(CpuView { i: nnn, pc: next, ..s })
    } else if digit == 0xB {
        Ok(CpuView { pc: (nnn + s.v[0]) as u16, ..s })
    } else if digit == 0xC {
        Ok(CpuView { v: s.v.update(x, rnd & kk), pc: next, ..s })
    } else if digit == 0xD {
        let vx = s.v[x];
        let vy = s.v[y];
        Ok(
            CpuView {
                frame_buffer: drawn(s.frame_buffer, s.memory, s.i, vx, vy, n),
                v: s.v.update(15, flag(collides(s.frame_buffer, s.memory, s.i, vx, vy, n))),
                pc: next,
                ..s
            },
        )
    } else {
        Ok(CpuView { pc: next, ..s })
    }
}

/// A cycle's result with the trace record left out.
pub open spec fn result_unit(r: Result<Option<TraceRecord>, ExecError>) -> Result<(), ExecError> {
    match r {
        Ok(_) => Ok(()),
        Err(e) => Err(e),
    }
}

/// `step` as it relates the states before and after an execution and its result.
pub open spec fn stepped(
    before: CpuView,
    after: CpuView,
    op: u16,
    rnd: u8,
    r: Result<(), ExecError>,
) -> bool {
    match step(before, op, rnd) {
        Ok(s) => r is Ok && after == s,
        Err(e) => r == Err::<(), ExecError>(e) && after == before,
    }
}

/// Applies an `8xyn` instruction to the registers; false where `n` names none.
fn alu_apply(v: &mut [u8; 16], x: usize, y: usize, n: u16) -> (applied: bool)
    requires
        x < 16,
        y < 16,
    ensures
        applied == alu(old(v)@, x as int, y as int, n) is Some,
        applied ==> final(v)@ == alu(old(v)@, x as int, y as int, n)->Some_0,
        !applied ==> final(v)@ == old(v)@,
{
    let vx = v[x];
    let vy = v[y];
    if n == 0 {
        v[x] = vy;
    } else if n == 1 {
        v[x] = vx | vy;
    } else if n == 2 {
        v[x] = vx & vy;
    } else if n == 3 {
        v[x] = vx ^ vy;
    } else if n == 4 {
        let sum = vx as u16 + vy as u16;
        v[15] = if sum > 255 { 1 } else { 0 };
        v[x] = (sum % 256) as u8;
    } else if n == 5 {
        v[15] = if vx >= vy { 1 } else { 0 };
        v[x] = ((vx as u16 + 256 - vy as u16) % 256) as u8;
    } else if n == 6 {
        v[15] = vx & 1;
        v[x] = vx >> 1u8;
    } else if n == 7 {
        v[15] = if vy >= vx { 1 } else { 0 };
        v[x] = ((vy as u16 + 256 - vx as u16) % 256) as u8;
    } else if n == 0xE {
        v[15] = (vx >> 7u8) & 1;
        v[x] = ((vx as u16 * 2) % 256) as u8;
    } else {
        return false;
    }
    true
}

/// Cell `k` lies at or after the sprite bit `(row, col)` in drawing order.
spec fn visited(vx: u8, vy: u8, row: int, col: int, k: int) -> bool {
    sprite_row(vy, k) < row || (sprite_row(vy, k) == row && sprite_col(vx, k) < col)
}

/// The cell that sprite bit `(row, col)` lands on has those offsets.
proof fn lemma_cell_index(vx: u8, vy: u8, row: int, col: int)
    requires
        0 <= row < SCREEN_HEIGHT,
        0 <= col < SCREEN_WIDTH,
    ensures
        ({
            let k = (vx + col) % SCREEN_WIDTH as int + ((vy + row) % SCREEN_HEIGHT as int)
                * SCREEN_WIDTH as int;
            &&& 0 <= k < SCREEN_CELLS
            &&& sprite_row(vy, k) == row
            &&& sprite_col(vx, k) == col
        }),
{
    let a = (vx + col) % 64;
    let b = (vy + row) % 32;
    let k = a + b * 64;
    assert(k % 64 == a && k / 64 == b) by (nonlinear_arith)
        requires
            k == a + b * 64,
            0 <= a < 64,
            0 <= b < 32,
    ;
}

/// Every cell is where its offsets from the sprite's origin put it.
proof fn lemma_cell_coords(vx: u8, vy: u8, k: int)
    requires
        0 <= k < SCREEN_CELLS,
    ensures
        0 <= sprite_row(vy, k) < SCREEN_HEIGHT,
        0 <= sprite_col(vx, k) < SCREEN_WIDTH,
        k == (vx + sprite_col(vx, k)) % SCREEN_WIDTH as int + ((vy + sprite_row(vy, k))
            % SCREEN_HEIGHT as int) * SCREEN_WIDTH as int,
{
    let a = k % 64;
    let b = k / 64;
    assert(k == a + b * 64 && 0 <= b < 32) by (nonlinear_arith)
        requires
            0 <= k < 2048,
            a == k % 64,
            b == k / 64,
    ;
}

/// Relies on rand::random_range over the inclusive range 0..=255: one byte
/// drawn from the thread-local generator. Nothing is known of its value.
#[verifier::external_body]
fn random_byte() -> (r: u8) {
    rand::random_range(0..=255u8)
}

struct Register {
    v_registers: [u8; 16],
    index_register: u16,
    pc: u16,
    delay_timer: u8,
    sound_timer: u8,
    stack_pointer: u8,
}

/// The interpreter: memory, registers, call stack, frame buffer and keypad,
/// with the instruction trace.
pub struct CPU {
    register: Register,
    stack: [u16; 64],
    frame_buffer: [bool; 2048],
    memory: [u8; 4096],
    keypad: [bool; 16],
    debug: Debugger,
}

impl View for CPU {
    type V = CpuView;

    closed spec fn view(&self) -> CpuView {
        CpuView {
            v: self.register.v_registers@,
            i: self.register.index_register,
            pc: self.register.pc,
            delay_timer: self.register.delay_timer,
            sound_timer: self.register.sound_timer,
            sp: self.register.stack_pointer,
            stack: self.stack@,
            frame_buffer: self.frame_buffer@,
            memory: self.memory@,
            keypad: self.keypad@,
        }
    }
}

impl Default for CPU {
    fn default() -> (r: Self)
        ensures
            r.wf(),
            valid_view(r@),
            r@ == initial_view(),
            r.trace().status() == Propagate::Enable,
            r.trace().history() == Seq::<TraceRecord>::empty(),
    {
        CPU::new()
    }
}

impl CPU {
    /// The instruction trace.
    pub closed spec fn trace(&self) -> Debugger {
        self.debug
    }

    pub closed spec fn wf(&self) -> bool {
        self.register.stack_pointer <= STACK_SIZE && self.debug.wf()
    }

    /// A well-formed interpreter has a valid view.
    pub proof fn lemma_wf_view(&self)
        requires
            self.wf(),
        ensures
            valid_view(self@),
    {
    }

    /// A fresh interpreter: everything zero and cleared, execution at the start address.
    pub fn new() -> (r: Self)
        ensures
            r.wf(),
            valid_view(r@),
            r@ == initial_view(),
            r.trace().status() == Propagate::Enable,
            r.trace().history() == Seq::<TraceRecord>::empty(),
    {
        let r = CPU {
            register: Register {
                v_registers: [0; 16],
                index_register: 0,
                pc: 0x200,
                delay_timer: 0,
                sound_timer: 0,
                stack_pointer: 0,
            },
            stack: [0; 64],
            frame_buffer: [false; 2048],
            memory: [0; 4096],
            keypad: [false; 16],
            debug: Debugger::new(),
        };
        assert(r@.v =~= Seq::new(16, |k: int| 0u8));
        assert(r@.stack =~= Seq::new(STACK_SIZE as nat, |k: int| 0u16));
        assert(r@.frame_buffer =~= Seq::new(SCREEN_CELLS as nat, |k: int| false));
        assert(r@.memory =~= Seq::new(MEMORY_SIZE as nat, |k: int| 0u8));
        assert(r@.keypad =~= Seq::new(KEY_COUNT as nat, |k: int| false));
        r
    }

    /// Sets both timers, as a host restoring a state does.
    pub fn set_timers(&mut self, delay: u8, sound: u8)
        requires
            old(self).wf(),
        ensures
            final(self).wf(),
            final(self).trace() == old(self).trace(),
            final(self)@ == (CpuView { delay_timer: delay, sound_timer: sound, ..old(self)@ }),
    {
        self.register.delay_timer = delay;
        self.register.sound_timer = sound;
    }

    /// Copies `data` into memory at the start address. A program longer than
    /// the memory above that address is refused and nothing is written.
    pub fn load_rom(&mut self, data: &[u8]) -> (r: Result<(), LoadError>)
        requires
            old(self).wf(),
        ensures
            final(self).wf(),
            final(self).trace() == old(self).trace(),
            data@.len() > MAX_PROGRAM_LEN ==> r == Err::<(), LoadError>(LoadError::RomTooLarge)
                && final(self)@ == old(self)@,
            data@.len() <= MAX_PROGRAM_LEN ==> r is Ok && final(self)@ == (CpuView {
                memory: loaded_memory(old(self)@.memory, data@),
                ..old(self)@
            }),
    {
        if data.len() > MAX_PROGRAM_LEN {
            return Err(LoadError::RomTooLarge);
        }
        let ghost before = self.memory@;
        let mut j: usize = 0;
        while j < data.len()
            invariant
                data@.len() <= MAX_PROGRAM_LEN,
                j <= data@.len(),
                self.register == old(self).register,
                self.stack == old(self).stack,
                self.frame_buffer == old(self).frame_buffer,
                self.keypad == old(self).keypad,
                self.debug == old(self).debug,
                before.len() == MEMORY_SIZE,
                self.memory@.len() == MEMORY_SIZE,
                forall|k: int|
                    0 <= k < MEMORY_SIZE ==> self.memory@[k] == if PROGRAM_START <= k
                        < PROGRAM_START + j {
                        data@[k - PROGRAM_START]
                    } else {
                        before[k]
                    },
            decreases data@.len() - j,
        {
            self.memory[PROGRAM_START + j] = data[j];
            j = j + 1;
        }
        assert(self.memory@ =~= loaded_memory(before, data@));
        Ok(())
    }

    /// Executes one instruction. `random` stands for the byte that `Cxkk`
    /// draws; every other instruction ignores it. An opcode outside the
    /// instruction table only moves on to the next instruction. A call with a
    /// full stack and a return with an empty one are refused and leave the
    /// machine as it was. Sprite rows are read at addresses that wrap at the
    /// end of memory.
    pub fn execute(&mut self, opcode: u16, random: u8) -> (r: Result<(), ExecError>)
        requires
            old(self).wf(),
        ensures
            final(self).wf(),
            final(self).trace() == old(self).trace(),
            stepped(old(self)@, final(self)@, opcode, random, r),
    {
        let digit = opcode >> 12u16;
        let xx = (opcode >> 8u16) & 0xFu16;
        let yy = (opcode >> 4u16) & 0xFu16;
        let n = opcode & 0xFu16;
        let nnn = opcode & 0xFFFu16;
        let kk = (opcode & 0xFFu16) as u8;
        assert(xx < 16 && yy < 16 && n < 16 && nnn < 4096) by (bit_vector)
            requires
                xx == (opcode >> 8u16) & 0xFu16,
                yy == (opcode >> 4u16) & 0xFu16,
                n == opcode & 0xFu16,
                nnn == opcode & 0xFFFu16,
        ;
        let x = xx as usize;
        let y = yy as usize;
        let pc = self.register.pc;
        let next = ((pc as u32 + 2) % 0x10000) as u16;
        let skip = ((pc as u32 + 4) % 0x10000) as u16;
        let ghost s = self@;
        if opcode == 0x00E0 {
            self.frame_buffer = [false; 2048];
            self.register.pc = next;
            assert(self.frame_buffer@ =~= Seq::new(s.frame_buffer.len(), |k: int| false));
        } else if opcode == 0x00EE {
            let sp = self.register.stack_pointer;
            if sp == 0 {
                return Err(ExecError::StackUnderflow);
            }
            self.register.stack_pointer = sp - 1;
            self.register.pc = self.stack[(sp - 1) as usize];
        } else if digit == 1 {
            self.register.pc = nnn;
        } else if digit == 2 {
            let sp = self.register.stack_pointer;
            if sp as usize >= STACK_SIZE {
                return Err(ExecError::StackOverflow);
            }
            self.stack[sp as usize] = next;
            self.register.stack_pointer = sp + 1;
            self.register.pc = nnn;
        } else if digit == 3 {
            self.register.pc = if self.register.v_registers[x] == kk { skip } else { next };
        } else if digit == 4 {
            self.register.pc = if self.register.v_registers[x] != kk { skip } else { next };
        } else if digit == 5 && n == 0 {
            let equal = self.register.v_registers[x] == self.register.v_registers[y];
            self.register.pc = if equal { skip } else { next };
        } else if digit == 6 {
            self.register.v_registers[x] = kk;
            self.register.pc = next;
        } else if digit == 7 {
            let vx = self.register.v_registers[x];
            self.register.v_registers[x] = ((vx as u16 + kk as u16) % 256) as u8;
            self.register.pc = next;
        } else if digit == 8 {
            alu_apply(&mut self.register.v_registers, x, y, n);
            self.register.pc = next;
        } else if digit == 9 && n == 0 {
            let differ = self.register.v_registers[x] != self.register.v_registers[y];
            self.register.pc = if differ { skip } else { next };
        } else if digit == 0xA {
            self.register.index_register = nnn;
            self.register.pc = next;
        } else if digit == 0xB {
            self.register.pc = nnn + self.register.v_registers[0] as u16;
        } else if digit == 0xC {
            self.register.v_registers[x] = random & kk;
            self.register.pc = next;
        } else if digit == 0xD {
            self.draw(x, y, n);
            self.register.pc = next;
        } else {
            self.register.pc = next;
        }
        Ok(())
    }

    /// XORs the `n`-row sprite at the index register onto the frame buffer
    /// at `(Vx, Vy)` and sets VF to whether a set cell was turned off.
    fn draw(&mut self, x: usize, y: usize, n: u16)
        requires
            x < 16,
            y < 16,
            n < 16,
        ensures
            ({
                let s = old(self)@;
                let vx = s.v[x as int];
                let vy = s.v[y as int];
                final(self)@ == CpuView {
                    frame_buffer: drawn(s.frame_buffer, s.memory, s.i, vx, vy, n),
                    v: s.v.update(15, flag(collides(s.frame_buffer, s.memory, s.i, vx, vy, n))),
                    ..s
                }
            }),
            final(self).register.stack_pointer == old(self).register.stack_pointer,
            final(self).debug == old(self).debug,
    {
        let vx = self.register.v_registers[x];
        let vy = self.register.v_registers[y];
        let ghost s = self@;
        let ghost fb0 = self.frame_buffer@;
        let mut collided: bool = false;
        let mut row: u16 = 0;
        while row < n
            invariant
                row <= n,
                n < 16,
                s == old(self)@,
                x < 16,
                y < 16,
                s.v.len() == 16,
                vx == s.v[x as int],
                vy == s.v[y as int],
                fb0 == s.frame_buffer,
                self.register == old(self).register,
                self.stack == old(self).stack,
                self.memory == old(self).memory,
                self.keypad == old(self).keypad,
                self.debug == old(self).debug,
                forall|k: int|
                    0 <= k < SCREEN_CELLS ==> #[trigger] self.frame_buffer@[k] == (fb0[k] != (
                    sprite_hit(s.memory, s.i, vx, vy, n, k) && visited(vx, vy, row as int, 0, k))),
                collided == exists|k: int|
                    0 <= k < SCREEN_CELLS && fb0[k] && #[trigger] sprite_hit(s.memory, s.i, vx, vy, n, k)
                        && visited(vx, vy, row as int, 0, k),
            decreases n - row,
        {
            let addr = (self.register.index_register as usize + row as usize) % MEMORY_SIZE;
            let pixels = self.memory[addr];
            let mut col: u16 = 0;
            while col < 8
                invariant
                    row < n,
                    n < 16,
                    col <= 8,
                    s == old(self)@,
                    x < 16,
                    y < 16,
                    s.v.len() == 16,
                    vx == s.v[x as int],
                    vy == s.v[y as int],
                    fb0 == s.frame_buffer,
                    pixels == s.memory[(s.i as int + row) % MEMORY_SIZE as int],
                    self.register == old(self).register,
                    self.stack == old(self).stack,
                    self.memory == old(self).memory,
                    self.keypad == old(self).keypad,
                    self.debug == old(self).debug,
                    forall|k: int|
                        0 <= k < SCREEN_CELLS ==> #[trigger] self.frame_buffer@[k] == (fb0[k] != (
                        sprite_hit(s.memory, s.i, vx, vy, n, k) && visited(
                            vx,
                            vy,
                            row as int,
                            col as int,
                            k,
                        ))),
                    collided == exists|k: int|
                        0 <= k < SCREEN_CELLS && fb0[k] && #[trigger] sprite_hit(
                            s.memory,
                            s.i,
                            vx,
                            vy,
                            n,
                            k,
                        ) && visited(vx, vy, row as int, col as int, k),
                decreases 8 - col,
            {
                let cx = (vx as usize + col as usize) % SCREEN_WIDTH;
                let cy = (vy as usize + row as usize) % SCREEN_HEIGHT;
                let index = cx + cy * SCREEN_WIDTH;
                proof {
                    lemma_cell_index(vx, vy, row as int, col as int);
                    assert forall|k: int| 0 <= k < SCREEN_CELLS implies visited(
                        vx,
                        vy,
                        row as int,
                        col as int + 1,
                        k,
                    ) == (visited(vx, vy, row as int, col as int, k) || k == index) by {
                        lemma_cell_coords(vx, vy, k);
                    }
                }
                let bit = (pixels >> (7u8 - col as u8)) & 1u8 == 1u8;
                assert(bit == sprite_hit(s.memory, s.i, vx, vy, n, index as int));
                if bit {
                    if self.frame_buffer[index] {
                        self.frame_buffer[index] = false;
                        collided = true;
                    } else {
                        self.frame_buffer[index] = true;
                    }
                }
                col = col + 1;
                proof {
                    if !collided {
                        assert forall|k: int|
                            0 <= k < SCREEN_CELLS && fb0[k] && #[trigger] sprite_hit(
                                s.memory,
                                s.i,
                                vx,
                                vy,
                                n,
                                k,
                            ) implies !visited(vx, vy, row as int, col as int, k) by {
                            if k == index {
                                assert(self.frame_buffer@[k] == false);
                            }
                        }
                    }
                }
            }
            row = row + 1;
            proof {
                assert forall|k: int| 0 <= k < SCREEN_CELLS implies (visited(
                    vx,
                    vy,
                    row as int,
                    0,
                    k,
                ) == visited(vx, vy, row - 1, 8, k)) || !sprite_hit(s.memory, s.i, vx, vy, n, k) by {
                    lemma_cell_coords(vx, vy, k);
                }
            }
        }
        self.register.v_registers[15] = if collided { 1 } else { 0 };
        proof {
            assert forall|k: int| 0 <= k < SCREEN_CELLS implies visited(vx, vy, n as int, 0, k) || !sprite_hit(s.memory, s.i, vx, vy, n, k) by {
                lemma_cell_coords(vx, vy, k);
            }
        }
        assert(self.frame_buffer@ =~= drawn(s.frame_buffer, s.memory, s.i, vx, vy, n));
        assert(self.register.v_registers@ =~= s.v.update(15, flag(collides(s.frame_buffer, s.memory, s.i, vx, vy, n))));
    }

    /// One fetch-decode-execute cycle: reads the opcode at the program
    /// counter, hands it to the trace, and executes it with a freshly drawn
    /// random byte. Returns the trace record to print, if any.
    pub fn run(&mut self) -> (r: Result<Option<TraceRecord>, ExecError>)
        requires
            old(self).wf(),
        ensures
            final(self).wf(),
            ({
                let s = old(self)@;
                let op = fetch(s);
                let rec = TraceRecord {
                    opcode: op,
                    first_byte: s.memory[s.pc as int % MEMORY_SIZE as int] as u16,
                    second_byte: s.memory[(s.pc as int + 1) % MEMORY_SIZE as int] as u16,
                    pc: s.pc,
                    sp: s.sp,
                };
                let d = old(self).trace();
                &&& final(self).trace().status() == d.status()
                &&& final(self).trace().history() == traced_history(d.status(), d.history(), rec)
                &&& exists|rnd: u8|
                    stepped(s, final(self)@, op, rnd, #[trigger] result_unit(r))
                &&& (r matches Ok(t) ==> t == traced_output(d.status(), d.history(), rec))
            }),
    {
        let pc = self.register.pc;
        let first_byte = self.memory[pc as usize % MEMORY_SIZE] as u16;
        let second_byte = self.memory[(pc as usize + 1) % MEMORY_SIZE] as u16;
        let opcode = first_byte * 256 + second_byte;
        let trace = self.debug.propagate(pc, first_byte, second_byte, opcode, self.register.stack_pointer);
        let random = random_byte();
        let r = match self.execute(opcode, random) {
            Ok(()) => Ok(trace),
            Err(e) => Err(e),
        };
        assert(stepped(old(self)@, self@, opcode, random, result_unit(r)));
        r
    }

    /// Presses or releases hex key `key`.
    pub fn set_key(&mut self, key: usize, pressed: bool)
        requires
            old(self).wf(),
            key < KEY_COUNT,
        ensures
            final(self).wf(),
            final(self).trace() == old(self).trace(),
            final(self)@ == (CpuView { keypad: old(self)@.keypad.update(key as int, pressed), ..old(self)@ }),
    {
        self.keypad[key] = pressed;
    }

    pub fn is_key_pressed(&self, key: usize) -> (r: bool)
        requires
            key < KEY_COUNT,
        ensures
            r == self@.keypad[key as int],
    {
        self.keypad[key]
    }

    /// Turns the instruction trace on or off; its history stays.
    pub fn set_trace(&mut self, status: Propagate)
        requires
            old(self).wf(),
        ensures
            final(self).wf(),
            final(self)@ == old(self)@,
            final(self).trace().status() == status,
            final(self).trace().history() == old(self).trace().history(),
    {
        match status {
            Propagate::Enable => self.debug.enable(),
            Propagate::Disable => self.debug.disable(),
        }
    }

    pub fn debugger(&self) -> (r: &Debugger)
        ensures
            *r == self.trace(),
    {
        &self.debug
    }

    pub fn frame_buffer(&self) -> (r: &[bool; 2048])
        ensures
            r@ == self@.frame_buffer,
    {
        &self.frame_buffer
    }

    /// Whether the cell at column `x`, row `y` is set.
    pub fn pixel(&self, x: usize, y: usize) -> (r: bool)
        requires
            x < SCREEN_WIDTH,
            y < SCREEN_HEIGHT,
        ensures
            r == self@.frame_buffer[x + y * SCREEN_WIDTH],
    {
        self.frame_buffer[x + y * SCREEN_WIDTH]
    }

    pub fn get_register(&self, x: usize) -> (r: u8)
        requires
            x < 16,
        ensures
            r == self@.v[x as int],
    {
        self.register.v_registers[x]
    }

    pub fn get_index_register(&self) -> (r: u16)
        ensures
            r == self@.i,
    {
        self.register.index_register
    }

    pub fn get_pc(&self) -> (r: u16)
        ensures
            r == self@.pc,
    {
        self.register.pc
    }

    pub fn get_stack_pointer(&self) -> (r: u8)
        ensures
            r == self@.sp,
    {
        self.register.stack_pointer
    }

    pub fn get_delay_timer(&self) -> (r: u8)
        ensures
            r == self@.delay_timer,
    {
        self.register.delay_timer
    }

    pub fn get_sound_timer(&self) -> (r: u8)
        ensures
            r == self@.sound_timer,
    {
        self.register.sound_timer
    }

    /// The byte at `addr`.
    pub fn read_memory(&self, addr: usize) -> (r: u8)
        requires
            addr < MEMORY_SIZE,
        ensures
            r == self@.memory[addr as int],
    {
        self.memory[addr]
    }

    /// One tick of both timers: each drops by one while above zero.
    pub fn update_timers(&mut self)
        requires
            old(self).wf(),
        ensures
            final(self).wf(),
            final(self).trace() == old(self).trace(),
            final(self)@ == (CpuView {
                delay_timer: timer_tick(old(self)@.delay_timer),
                sound_timer: timer_tick(old(self)@.sound_timer),
                ..old(self)@
            }),
    {
        if self.register.delay_timer > 0 {
            self.register.delay_timer = self.register.delay_timer - 1;
        }
        if self.register.sound_timer > 0 {
            self.register.sound_timer = self.register.sound_timer - 1;
        }
    }
}

} // verus!
