use vstd::prelude::*;
use crate::decode::Instruction;
use crate::machine::{
    count_down, drawn_display, px_index, sprite_collides, sprite_covers, visible_rows, Chip8, Machine, DISP_BUFFER_SIZE,
    KEY_COUNT, MEMORY_SIZE, SCREEN_HEIGHT, SCREEN_WIDTH,
};

verus! {

/// Index of the flag register `VF`.
pub const FLAG_REG: usize = 0xF;

/// `v` reduced to a byte, modulo 256.
pub open spec fn wrap8(v: int) -> u8 {
    (v % 256) as u8
}

/// `s` with register `r` set to `v`.
pub open spec fn set_reg(s: Machine, r: int, v: u8) -> Machine {
    Machine { general: s.general.update(r, v), ..s }
}

/// `s` with the flag register set to `f` and then register `r` set to `v`
/// (so `v` wins where `r` is the flag register).
pub open spec fn set_reg_after_flag(s: Machine, r: int, v: u8, f: u8) -> Machine {
    set_reg(set_reg(s, FLAG_REG as int, f), r, v)
}

/// `s` with the next instruction skipped where `cond` holds.
pub open spec fn skip_if(s: Machine, cond: bool) -> Machine {
    if cond { Machine { pc: (s.pc + 2) as u16, ..s } } else { s }
}

/// The lowest index from `k` on whose key is down, if any.
pub open spec fn first_key_from(keys: Seq<bool>, k: int) -> Option<int>
    decreases KEY_COUNT - k,
{
    if k >= KEY_COUNT {
        None
    } else if keys[k] {
        Some(k)
    } else {
        first_key_from(keys, k + 1)
    }
}

/// The lowest index whose key is down, if any.
pub open spec fn first_key(keys: Seq<bool>) -> Option<int> {
    first_key_from(keys, 0)
}

/// Whether `r` names one of the sixteen general registers.
pub open spec fn is_reg(r: u8) -> bool {
    r < 16
}

/// Whether the pc can move two bytes forward without leaving 16 bits.
pub open spec fn can_skip(s: Machine) -> bool {
    s.pc + 2 <= u16::MAX
}

/// The inputs on which executing `ins` in state `s` is defined: register
/// operands name registers, every memory, stack and key access is in range,
/// and no 16-bit register leaves its range.
pub open spec fn exec_ok(ins: Instruction, s: Machine) -> bool {
    let g = s.general;
    match ins {
        Instruction::Cls => true,
        Instruction::Ret => s.sp < 16,
        Instruction::Jmp { .. } => true,
        Instruction::Call { .. } => s.sp + 1 < 16,
        Instruction::Se { reg, val } => is_reg(reg) && (g[reg as int] == val ==> can_skip(s)),
        Instruction::Sne { reg, val } => is_reg(reg) && (g[reg as int] != val ==> can_skip(s)),
        Instruction::SeReg { reg1, reg2 } => is_reg(reg1) && is_reg(reg2) && (g[reg1 as int]
            == g[reg2 as int] ==> can_skip(s)),
        Instruction::SneReg { reg1, reg2 } => is_reg(reg1) && is_reg(reg2) && (g[reg1 as int]
            != g[reg2 as int] ==> can_skip(s)),
        Instruction::Ld { reg, .. } => is_reg(reg),
        Instruction::Add { reg, .. } => is_reg(reg),
        Instruction::LdReg { reg1, reg2 } => is_reg(reg1) && is_reg(reg2),
        Instruction::Or { reg1, reg2 } => is_reg(reg1) && is_reg(reg2),
        Instruction::And { reg1, reg2 } => is_reg(reg1) && is_reg(reg2),
        Instruction::Xor { reg1, reg2 } => is_reg(reg1) && is_reg(reg2),
        Instruction::AddReg { reg1, reg2 } => is_reg(reg1) && is_reg(reg2),
        Instruction::SubReg { reg1, reg2 } => is_reg(reg1) && is_reg(reg2),
        Instruction::Shr { reg1, .. } => is_reg(reg1),
        Instruction::SubRegN { reg1, reg2 } => is_reg(reg1) && is_reg(reg2),
        Instruction::Shl { reg1, .. } => is_reg(reg1),
        Instruction::Ldi { .. } => true,
        Instruction::JmpV0 { address } => g[0] + address <= u16::MAX,
        Instruction::Rnd { reg, .. } => is_reg(reg),
        Instruction::Drw { reg1, reg2, n_bytes } => is_reg(reg1) && is_reg(reg2) && s.i
            + visible_rows((g[reg2 as int] % SCREEN_HEIGHT) as int, n_bytes as int) <= MEMORY_SIZE,
        Instruction::Skp { reg } => is_reg(reg) && g[reg as int] < KEY_COUNT && (s.keys[g[reg as int] as int]
            ==> can_skip(s)),
        Instruction::SkpNp { reg } => is_reg(reg) && g[reg as int] < KEY_COUNT && (!s.keys[g[reg as int] as int]
            ==> can_skip(s)),
        Instruction::LdFromDt { reg } => is_reg(reg),
        Instruction::LdKey { reg } => is_reg(reg) && (first_key(s.keys) is None ==> s.pc >= 2),
        Instruction::LdIntoDt { reg } => is_reg(reg),
        Instruction::LdSt { reg } => is_reg(reg),
        Instruction::AddI { reg } => is_reg(reg) && s.i + g[reg as int] <= u16::MAX,
        Instruction::LdF { reg } => is_reg(reg),
        Instruction::LdB { reg } => is_reg(reg) && s.i + 2 < MEMORY_SIZE,
        Instruction::LdRegsMem { end_reg } => is_reg(end_reg) && s.i + end_reg < MEMORY_SIZE,
        Instruction::LdMemRegs { end_reg } => is_reg(end_reg) && s.i + end_reg < MEMORY_SIZE,
    }
}

/// The state after executing `ins` in state `s`, where `rnd` is the random
/// byte that a random-number instruction draws (the others ignore it).
///
/// Dialect choices: the shifts follow the original CHIP-8 and act on `VX`
/// alone, ignoring `VY`; the jump with offset adds `V0` to the address in 16
/// bits without masking to 12; a return with the stack pointer at 0 leaves
/// it at 0; `VF` is written before the result, so an arithmetic result whose
/// target is `VF` overrides the flag.
pub open spec fn exec_spec(ins: Instruction, s: Machine, rnd: u8) -> Machine {
    let g = s.general;
    match ins {
        Instruction::Cls => Machine { disp: Seq::new(DISP_BUFFER_SIZE as nat, |p: int| 0u8), ..s },
        Instruction::Ret => Machine { pc: s.stack[s.sp as int], sp: count_down(s.sp), ..s },
        Instruction::Jmp { address } => Machine { pc: address, ..s },
        Instruction::Call { address } => Machine {
            sp: (s.sp + 1) as u8,
            stack: s.stack.update(s.sp + 1, s.pc),
            pc: address,
            ..s
        },
        Instruction::Se { reg, val } => skip_if(s, g[reg as int] == val),
        Instruction::Sne { reg, val } => skip_if(s, g[reg as int] != val),
        Instruction::SeReg { reg1, reg2 } => skip_if(s, g[reg1 as int] == g[reg2 as int]),
        Instruction::SneReg { reg1, reg2 } => skip_if(s, g[reg1 as int] != g[reg2 as int]),
        Instruction::Ld { reg, val } => set_reg(s, reg as int, val),
        Instruction::Add { reg, val } => set_reg(s, reg as int, wrap8(g[reg as int] + val)),
        Instruction::LdReg { reg1, reg2 } => set_reg(s, reg1 as int, g[reg2 as int]),
        Instruction::Or { reg1, reg2 } => set_reg(s, reg1 as int, g[reg1 as int] | g[reg2 as int]),
        Instruction::And { reg1, reg2 } => set_reg(s, reg1 as int, g[reg1 as int] & g[reg2 as int]),
        Instruction::Xor { reg1, reg2 } => set_reg(s, reg1 as int, g[reg1 as int] ^ g[reg2 as int]),
        Instruction::AddReg { reg1, reg2 } => {
            let sum = g[reg1 as int] + g[reg2 as int];
            set_reg_after_flag(s, reg1 as int, wrap8(sum), if sum > 0xFF { 1 } else { 0 })
        },
        Instruction::SubReg { reg1, reg2 } => set_reg_after_flag(
            s,
            reg1 as int,
            wrap8(g[reg1 as int] - g[reg2 as int]),
            if g[reg1 as int] > g[reg2 as int] { 1 } else { 0 },
        ),
        Instruction::Shr { reg1, .. } => set_reg_after_flag(
            s,
            reg1 as int,
            g[reg1 as int] / 2,
            g[reg1 as int] % 2,
        ),
        Instruction::SubRegN { reg1, reg2 } => set_reg_after_flag(
            s,
            reg1 as int,
            wrap8(g[reg2 as int] - g[reg1 as int]),
            if g[reg2 as int] > g[reg1 as int] { 1 } else { 0 },
        ),
        Instruction::Shl { reg1, .. } => set_reg_after_flag(
            s,
            reg1 as int,
            wrap8(g[reg1 as int] * 2),
            if g[reg1 as int] >= 0x80 { 1 } else { 0 },
        ),
        Instruction::Ldi { address } => Machine { i: address, ..s },
        Instruction::JmpV0 { address } => Machine { pc: (g[0] + address) as u16, ..s },
        Instruction::Rnd { reg, mask } => set_reg(s, reg as int, rnd & mask),
        Instruction::Drw { reg1, reg2, n_bytes } => {
            let x = (g[reg1 as int] % SCREEN_WIDTH) as int;
            let y = (g[reg2 as int] % SCREEN_HEIGHT) as int;
            let hit = sprite_collides(s, x, y, n_bytes as int);
            set_reg(
                Machine { disp: drawn_display(s, x, y, n_bytes as int), ..s },
                FLAG_REG as int,
                if hit { 1 } else { 0 },
            )
        },
        Instruction::Skp { reg } => skip_if(s, s.keys[g[reg as int] as int]),
        Instruction::SkpNp { reg } => skip_if(s, !s.keys[g[reg as int] as int]),
        Instruction::LdFromDt { reg } => set_reg(s, reg as int, s.dt),
        Instruction::LdKey { reg } => match first_key(s.keys) {
            Some(k) => set_reg(s, reg as int, k as u8),
            None => Machine { pc: (s.pc - 2) as u16, ..s },
        },
        Instruction::LdIntoDt { reg } => Machine { dt: g[reg as int], ..s },
        Instruction::LdSt { reg } => Machine { st: g[reg as int], ..s },
        Instruction::AddI { reg } => Machine { i: (s.i + g[reg as int]) as u16, ..s },
        Instruction::LdF { reg } => Machine { i: (g[reg as int] * 5) as u16, ..s },
        Instruction::LdB { reg } => {
            let v = g[reg as int];
            Machine {
                memory: s.memory.update(s.i as int, v / 100).update(s.i + 1, (v / 10) % 10).update(
                    s.i + 2,
                    v % 10,
                ),
                ..s
            }
        },
        Instruction::LdRegsMem { end_reg } => Machine {
            memory: Seq::new(
                MEMORY_SIZE as nat,
                |a: int|
                    if s.i <= a <= s.i + end_reg {
                        g[a - s.i]
                    } else {
                        s.memory[a]
                    },
            ),
            ..s
        },
        Instruction::LdMemRegs { end_reg } => Machine {
            general: Seq::new(
                16,
                |k: int|
                    if k <= end_reg {
                        s.memory[s.i + k]
                    } else {
                        g[k]
                    },
            ),
            ..s
        },
    }
}

/// Call and return undo each other: a call to `address` made with the
/// program counter at `y` jumps to `address` and pushes `y`; a return
/// right after it brings the program counter back to `y` and the stack
/// pointer back where it was.
pub proof fn lemma_call_then_return(s: Machine, address: u16, rnd: u8)
    requires
        s.wf(),
        exec_ok(Instruction::Call { address }, s),
    ensures
        ({
            let t = exec_spec(Instruction::Call { address }, s, rnd);
            let u = exec_spec(Instruction::Ret, t, rnd);
            &&& t.pc == address
            &&& t.stack[t.sp as int] == s.pc
            &&& exec_ok(Instruction::Ret, t)
            &&& u.pc == s.pc
            &&& u.sp == s.sp
        }),
{
}

/// Drawing the same sprite twice at the same place (with coordinate
/// registers other than `VF`) leaves the display as it was. On a blank
/// display the second draw reports a collision exactly when the sprite has a
/// lit pixel on screen.
pub proof fn lemma_draw_twice_restores(s: Machine, reg1: u8, reg2: u8, n_bytes: u8, rnd: u8)
    requires
        s.wf(),
        exec_ok(Instruction::Drw { reg1, reg2, n_bytes }, s),
        reg1 != FLAG_REG,
        reg2 != FLAG_REG,
    ensures
        ({
            let ins = Instruction::Drw { reg1, reg2, n_bytes };
            let t = exec_spec(ins, s, rnd);
            let u = exec_spec(ins, t, rnd);
            let x = (s.general[reg1 as int] % SCREEN_WIDTH) as int;
            let y = (s.general[reg2 as int] % SCREEN_HEIGHT) as int;
            &&& exec_ok(ins, t)
            &&& u.disp == s.disp
            &&& (forall|p: int| 0 <= p < DISP_BUFFER_SIZE ==> s.disp[p] == 0) ==> (u.general[FLAG_REG as int]
                == 1 <==> exists|px: int, py: int|
                0 <= px < SCREEN_WIDTH && 0 <= py < SCREEN_HEIGHT && #[trigger] sprite_covers(
                    s,
                    x,
                    y,
                    n_bytes as int,
                    px,
                    py,
                ))
        }),
{
    let ins = Instruction::Drw { reg1, reg2, n_bytes };
    let t = exec_spec(ins, s, rnd);
    let u = exec_spec(ins, t, rnd);
    let x = (s.general[reg1 as int] % SCREEN_WIDTH) as int;
    let y = (s.general[reg2 as int] % SCREEN_HEIGHT) as int;
    let n = n_bytes as int;
    assert(t.general[reg1 as int] == s.general[reg1 as int]);
    assert(t.general[reg2 as int] == s.general[reg2 as int]);
    assert forall|px: int, py: int| #[trigger] sprite_covers(t, x, y, n, px, py) == sprite_covers(s, x, y, n, px, py) by {}
    assert forall|p: int| 0 <= p < DISP_BUFFER_SIZE implies #[trigger] u.disp[p] == s.disp[p] by {
        let d = s.disp[p];
        assert((d ^ 1u8) ^ 1u8 == d) by (bit_vector);
    }
    assert(u.disp =~= s.disp);
    if forall|p: int| 0 <= p < DISP_BUFFER_SIZE ==> s.disp[p] == 0 {
        if exists|px: int, py: int| 0 <= px < SCREEN_WIDTH && 0 <= py < SCREEN_HEIGHT && #[trigger] sprite_covers(s, x, y, n, px, py) {
            let (px, py) = choose|px: int, py: int| 0 <= px < SCREEN_WIDTH && 0 <= py < SCREEN_HEIGHT && #[trigger] sprite_covers(s, x, y, n, px, py);
            let p = px_index(px, py);
            assert(p % 64 == px && p / 64 == py);
            assert((0u8 ^ 1u8) == 1u8) by (bit_vector);
            assert(t.disp[p] != 0);
            assert(sprite_covers(t, x, y, n, px, py));
        }
    }
}

/// Relies on `fastrand::u8(..)`: a byte drawn from the thread-local
/// generator, which a seed makes repeatable. Nothing is promised of its value.
#[verifier::external_body]
fn draw_random_byte() -> (r: u8) {
    fastrand::u8(..)
}

/// Executes a control-flow instruction: clear, jumps, calls, returns and skips.
fn exec_flow(ins: &Instruction, chip8: &mut Chip8, random_byte: u8)
    requires
        exec_ok(*ins, old(chip8)@),
        ins is Cls
            || ins is Ret
            || ins is Jmp
            || ins is Call
            || ins is JmpV0
            || ins is Se
            || ins is Sne
            || ins is SeReg
            || ins is SneReg
            || ins is Skp
            || ins is SkpNp,
    ensures
        final(chip8)@ == exec_spec(*ins, old(chip8)@, random_byte),
{
    let ghost s = chip8@;
    match *ins {
        Instruction::Cls => {
            let mut p: usize = 0;
            while p < DISP_BUFFER_SIZE
                invariant
                    p <= DISP_BUFFER_SIZE,
                    chip8@ == (Machine { disp: chip8@.disp, ..s }),
                    chip8@.disp.len() == DISP_BUFFER_SIZE,
                    forall|q: int| 0 <= q < p ==> #[trigger] chip8@.disp[q] == 0u8,
                decreases DISP_BUFFER_SIZE - p,
            {
                chip8.disp_buffer[p] = 0;
                p = p + 1;
            }
            assert(chip8@ =~= exec_spec(*ins, s, random_byte));
        },
        Instruction::Ret => {
            chip8.regs.pc = chip8.stack[chip8.regs.sp as usize];
            if chip8.regs.sp > 0 {
                chip8.regs.sp = chip8.regs.sp - 1;
            }
        },
        Instruction::Jmp { address } => {
            chip8.regs.pc = address;
        },
        Instruction::Call { address } => {
            chip8.regs.sp = chip8.regs.sp + 1;
            chip8.stack[chip8.regs.sp as usize] = chip8.regs.pc;
            chip8.regs.pc = address;
        },
        Instruction::JmpV0 { address } => {
            chip8.regs.pc = chip8.regs.general[0] as u16 + address;
        },
        Instruction::Se { reg, val } => {
            if chip8.regs.general[reg as usize] == val {
                chip8.regs.pc = chip8.regs.pc + 2;
            }
        },
        Instruction::Sne { reg, val } => {
            if chip8.regs.general[reg as usize] != val {
                chip8.regs.pc = chip8.regs.pc + 2;
            }
        },
        Instruction::SeReg { reg1, reg2 } => {
            if chip8.regs.general[reg1 as usize] == chip8.regs.general[reg2 as usize] {
                chip8.regs.pc = chip8.regs.pc + 2;
            }
        },
        Instruction::SneReg { reg1, reg2 } => {
            if chip8.regs.general[reg1 as usize] != chip8.regs.general[reg2 as usize] {
                chip8.regs.pc = chip8.regs.pc + 2;
            }
        },
        Instruction::Skp { reg } => {
            let key = chip8.regs.general[reg as usize];
            if chip8.key_down[key as usize] {
                chip8.regs.pc = chip8.regs.pc + 2;
            }
        },
        Instruction::SkpNp { reg } => {
            let key = chip8.regs.general[reg as usize];
            if !chip8.key_down[key as usize] {
                chip8.regs.pc = chip8.regs.pc + 2;
            }
        },
        _ => {},
    }
}

/// Executes a register instruction: loads, arithmetic, logic, shifts and random numbers.
fn exec_alu(ins: &Instruction, chip8: &mut Chip8, random_byte: u8)
    requires
        exec_ok(*ins, old(chip8)@),
        ins is Ld
            || ins is Add
            || ins is LdReg
            || ins is Or
            || ins is And
            || ins is Xor
            || ins is AddReg
            || ins is SubReg
            || ins is Shr
            || ins is SubRegN
            || ins is Shl
            || ins is Rnd,
    ensures
        final(chip8)@ == exec_spec(*ins, old(chip8)@, random_byte),
{
    match *ins {
        Instruction::Ld { reg, val } => {
            chip8.regs.general[reg as usize] = val;
        },
        Instruction::Add { reg, val } => {
            let sum = chip8.regs.general[reg as usize] as u16 + val as u16;
            chip8.regs.general[reg as usize] = if sum > 0xFF { (sum - 0x100) as u8 } else { sum as u8 };
        },
        Instruction::LdReg { reg1, reg2 } => {
            chip8.regs.general[reg1 as usize] = chip8.regs.general[reg2 as usize];
        },
        Instruction::Or { reg1, reg2 } => {
            let result = chip8.regs.general[reg1 as usize] | chip8.regs.general[reg2 as usize];
            chip8.regs.general[reg1 as usize] = result;
        },
        Instruction::And { reg1, reg2 } => {
            let result = chip8.regs.general[reg1 as usize] & chip8.regs.general[reg2 as usize];
            chip8.regs.general[reg1 as usize] = result;
        },
        Instruction::Xor { reg1, reg2 } => {
            let result = chip8.regs.general[reg1 as usize] ^ chip8.regs.general[reg2 as usize];
            chip8.regs.general[reg1 as usize] = result;
        },
        Instruction::AddReg { reg1, reg2 } => {
            let sum = chip8.regs.general[reg1 as usize] as u16 + chip8.regs.general[reg2 as usize] as u16;
            chip8.regs.general[FLAG_REG] = if sum > 0xFF { 1 } else { 0 };
            chip8.regs.general[reg1 as usize] = if sum > 0xFF { (sum - 0x100) as u8 } else { sum as u8 };
        },
        Instruction::SubReg { reg1, reg2 } => {
            let a = chip8.regs.general[reg1 as usize];
            let b = chip8.regs.general[reg2 as usize];
            chip8.regs.general[FLAG_REG] = if a > b { 1 } else { 0 };
            chip8.regs.general[reg1 as usize] = if a >= b { a - b } else { ((a as u16 + 0x100) - b as u16) as u8 };
        },
        Instruction::Shr { reg1, .. } => {
            let a = chip8.regs.general[reg1 as usize];
            chip8.regs.general[FLAG_REG] = a % 2;
            chip8.regs.general[reg1 as usize] = a / 2;
        },
        Instruction::SubRegN { reg1, reg2 } => {
            let a = chip8.regs.general[reg1 as usize];
            let b = chip8.regs.general[reg2 as usize];
            chip8.regs.general[FLAG_REG] = if b > a { 1 } else { 0 };
            chip8.regs.general[reg1 as usize] = if b >= a { b - a } else { ((b as u16 + 0x100) - a as u16) as u8 };
        },
        Instruction::Shl { reg1, .. } => {
            let a = chip8.regs.general[reg1 as usize];
            chip8.regs.general[FLAG_REG] = if a >= 0x80 { 1 } else { 0 };
            chip8.regs.general[reg1 as usize] = if a >= 0x80 { (a - 0x80) * 2 } else { a * 2 };
        },
        Instruction::Rnd { reg, mask } => {
            chip8.regs.general[reg as usize] = random_byte & mask;
        },
        _ => {},
    }
}

/// Executes a sprite draw, a timer instruction or an index-register instruction.
fn exec_draw_timer_index(ins: &Instruction, chip8: &mut Chip8, random_byte: u8)
    requires
        exec_ok(*ins, old(chip8)@),
        ins is Ldi
            || ins is Drw
            || ins is LdFromDt
            || ins is LdIntoDt
            || ins is LdSt
            || ins is AddI
            || ins is LdF
            || ins is LdB,
    ensures
        final(chip8)@ == exec_spec(*ins, old(chip8)@, random_byte),
{
    match *ins {
        Instruction::Ldi { address } => {
            chip8.regs.i = address;
        },
        Instruction::Drw { reg1, reg2, n_bytes } => {
            let x = chip8.regs.general[reg1 as usize] % SCREEN_WIDTH;
            let y = chip8.regs.general[reg2 as usize] % SCREEN_HEIGHT;
            let hit = chip8.draw_sprite(x, y, n_bytes);
            chip8.regs.general[FLAG_REG] = if hit { 1 } else { 0 };
        },
        Instruction::LdFromDt { reg } => {
            chip8.regs.general[reg as usize] = chip8.regs.dt;
        },
        Instruction::LdIntoDt { reg } => {
            chip8.regs.dt = chip8.regs.general[reg as usize];
        },
        Instruction::LdSt { reg } => {
            chip8.regs.st = chip8.regs.general[reg as usize];
        },
        Instruction::AddI { reg } => {
            chip8.regs.i = chip8.regs.i + chip8.regs.general[reg as usize] as u16;
        },
        Instruction::LdF { reg } => {
            chip8.regs.i = chip8.regs.general[reg as usize] as u16 * 5;
        },
        Instruction::LdB { reg } => {
            let v = chip8.regs.general[reg as usize];
            let i = chip8.regs.i as usize;
            chip8.memory[i] = v / 100;
            chip8.memory[i + 1] = (v / 10) % 10;
            chip8.memory[i + 2] = v % 10;
        },
        _ => {},
    }
}

/// Executes the wait-for-key instruction.
fn exec_key_wait(ins: &Instruction, chip8: &mut Chip8, random_byte: u8)
    requires
        exec_ok(*ins, old(chip8)@),
        ins is LdKey,
    ensures
        final(chip8)@ == exec_spec(*ins, old(chip8)@, random_byte),
{
    let ghost s = chip8@;
    match *ins {
        Instruction::LdKey { reg } => {
            let mut key: usize = 0;
            let mut found = false;
            while key < KEY_COUNT && !found
                invariant
                    chip8@ == s,
                    key <= KEY_COUNT,
                    found ==> key < KEY_COUNT && first_key(s.keys) == Some(key as int),
                    !found ==> first_key(s.keys) == first_key_from(s.keys, key as int),
                decreases KEY_COUNT - key + if found { 0int } else { 1 },
            {
                if chip8.key_down[key] {
                    found = true;
                } else {
                    key = key + 1;
                }
            }
            if found {
                chip8.regs.general[reg as usize] = key as u8;
            } else {
                // nothing is down: step back so that this instruction runs again
                chip8.regs.pc = chip8.regs.pc - 2;
            }
        },
        _ => {},
    }
}

/// Executes a register dump or a register load.
fn exec_memory_block(ins: &Instruction, chip8: &mut Chip8, random_byte: u8)
    requires
        exec_ok(*ins, old(chip8)@),
        ins is LdRegsMem || ins is LdMemRegs,
    ensures
        final(chip8)@ == exec_spec(*ins, old(chip8)@, random_byte),
{
    let ghost s = chip8@;
    match *ins {
        Instruction::LdRegsMem { end_reg } => {
            let i = chip8.regs.i as usize;
            let mut k: usize = 0;
            while k <= end_reg as usize
                invariant
                    end_reg < 16,
                    i == s.i,
                    i + end_reg < MEMORY_SIZE,
                    k <= end_reg + 1,
                    chip8@ == (Machine { memory: chip8@.memory, ..s }),
                    chip8@.memory.len() == MEMORY_SIZE,
                    forall|a: int| 0 <= a < MEMORY_SIZE ==> #[trigger] chip8@.memory[a]
                        == if i <= a < i + k { s.general[a - i] } else { s.memory[a] },
                decreases end_reg + 1 - k,
            {
                chip8.memory[i + k] = chip8.regs.general[k];
                k = k + 1;
            }
            assert(chip8@ =~= exec_spec(*ins, s, random_byte));
        },
        Instruction::LdMemRegs { end_reg } => {
            let i = chip8.regs.i as usize;
            let mut k: usize = 0;
            while k <= end_reg as usize
                invariant
                    end_reg < 16,
                    i == s.i,
                    i + end_reg < MEMORY_SIZE,
                    k <= end_reg + 1,
                    chip8@ == (Machine { general: chip8@.general, ..s }),
                    chip8@.general.len() == 16,
                    forall|r: int| 0 <= r < 16 ==> #[trigger] chip8@.general[r]
                        == if r < k { s.memory[i + r] } else { s.general[r] },
                decreases end_reg + 1 - k,
            {
                chip8.regs.general[k] = chip8.memory[i + k];
                k = k + 1;
            }
            assert(chip8@ =~= exec_spec(*ins, s, random_byte));
        },
        _ => {},
    }
}

/// Executes `ins` on `chip8`, taking `random_byte` as the byte that a
/// random-number instruction draws.
pub fn apply_instruction(ins: &Instruction, chip8: &mut Chip8, random_byte: u8)
    requires
        exec_ok(*ins, old(chip8)@),
    ensures
        final(chip8)@ == exec_spec(*ins, old(chip8)@, random_byte),
{
    match *ins {
        Instruction::Cls
        | Instruction::Ret
        | Instruction::Jmp { .. }
        | Instruction::Call { .. }
        | Instruction::JmpV0 { .. }
        | Instruction::Se { .. }
        | Instruction::Sne { .. }
        | Instruction::SeReg { .. }
        | Instruction::SneReg { .. }
        | Instruction::Skp { .. }
        | Instruction::SkpNp { .. } => exec_flow(ins, chip8, random_byte),
        Instruction::Ld { .. }
        | Instruction::Add { .. }
        | Instruction::LdReg { .. }
        | Instruction::Or { .. }
        | Instruction::And { .. }
        | Instruction::Xor { .. }
        | Instruction::AddReg { .. }
        | Instruction::SubReg { .. }
        | Instruction::Shr { .. }
        | Instruction::SubRegN { .. }
        | Instruction::Shl { .. }
        | Instruction::Rnd { .. } => exec_alu(ins, chip8, random_byte),
        Instruction::Ldi { .. }
        | Instruction::Drw { .. }
        | Instruction::LdFromDt { .. }
        | Instruction::LdIntoDt { .. }
        | Instruction::LdSt { .. }
        | Instruction::AddI { .. }
        | Instruction::LdF { .. }
        | Instruction::LdB { .. } => exec_draw_timer_index(ins, chip8, random_byte),
        Instruction::LdKey { .. } => exec_key_wait(ins, chip8, random_byte),
        Instruction::LdRegsMem { .. } | Instruction::LdMemRegs { .. } => exec_memory_block(
            ins,
            chip8,
            random_byte,
        ),
    }
}

/// Whether some key is down.
fn any_key_down(chip8: &Chip8) -> (r: bool)
    ensures
        r == (first_key(chip8@.keys) is Some),
{
    let mut key: usize = 0;
    while key < KEY_COUNT
        invariant
            key <= KEY_COUNT,
            first_key(chip8@.keys) == first_key_from(chip8@.keys, key as int),
        decreases KEY_COUNT - key,
    {
        if chip8.key_down[key] {
            return true;
        }
        key = key + 1;
    }
    false
}

/// Whether the pc of `chip8` can move two bytes forward.
fn can_skip_now(chip8: &Chip8) -> (r: bool)
    ensures
        r == can_skip(chip8@),
{
    chip8.regs.pc <= u16::MAX - 2
}

/// Whether `ins` may be executed on `chip8`: its register operands name
/// registers, and every memory, stack and key access it makes is in range.
pub fn can_execute(ins: &Instruction, chip8: &Chip8) -> (r: bool)
    ensures
        r == exec_ok(*ins, chip8@),
{
    let g = &chip8.regs.general;
    match *ins {
        Instruction::Cls | Instruction::Jmp { .. } | Instruction::Ldi { .. } => true,
        Instruction::Ret => chip8.regs.sp < 16,
        Instruction::Call { .. } => chip8.regs.sp < 15,
        Instruction::Se { reg, val } => reg < 16 && (g[reg as usize] != val || can_skip_now(chip8)),
        Instruction::Sne { reg, val } => reg < 16 && (g[reg as usize] == val || can_skip_now(chip8)),
        Instruction::SeReg { reg1, reg2 } => reg1 < 16 && reg2 < 16 && (g[reg1 as usize]
            != g[reg2 as usize] || can_skip_now(chip8)),
        Instruction::SneReg { reg1, reg2 } => reg1 < 16 && reg2 < 16 && (g[reg1 as usize]
            == g[reg2 as usize] || can_skip_now(chip8)),
        Instruction::Ld { reg, .. } | Instruction::Add { reg, .. } | Instruction::Rnd { reg, .. }
        | Instruction::LdFromDt { reg } | Instruction::LdIntoDt { reg } | Instruction::LdSt { reg }
        | Instruction::LdF { reg } => reg < 16,
        Instruction::LdReg { reg1, reg2 } | Instruction::Or { reg1, reg2 } | Instruction::And {
            reg1,
            reg2,
        } | Instruction::Xor { reg1, reg2 } | Instruction::AddReg { reg1, reg2 }
        | Instruction::SubReg { reg1, reg2 } | Instruction::SubRegN { reg1, reg2 } => reg1 < 16 && reg2
            < 16,
        Instruction::Shr { reg1, .. } | Instruction::Shl { reg1, .. } => reg1 < 16,
        Instruction::JmpV0 { address } => g[0] as u32 + address as u32 <= u16::MAX as u32,
        Instruction::Drw { reg1, reg2, n_bytes } => {
            if reg1 < 16 && reg2 < 16 {
                let y = g[reg2 as usize] % SCREEN_HEIGHT;
                let rows = if n_bytes < SCREEN_HEIGHT - y { n_bytes } else { SCREEN_HEIGHT - y };
                chip8.regs.i as usize + rows as usize <= MEMORY_SIZE
            } else {
                false
            }
        },
        Instruction::Skp { reg } => reg < 16 && (g[reg as usize] as usize) < KEY_COUNT && (
        !chip8.key_down[g[reg as usize] as usize] || can_skip_now(chip8)),
        Instruction::SkpNp { reg } => reg < 16 && (g[reg as usize] as usize) < KEY_COUNT && (
        chip8.key_down[g[reg as usize] as usize] || can_skip_now(chip8)),
        Instruction::LdKey { reg } => reg < 16 && (any_key_down(chip8) || chip8.regs.pc >= 2),
        Instruction::AddI { reg } => reg < 16 && chip8.regs.i as u32 + g[reg as usize] as u32
            <= u16::MAX as u32,
        Instruction::LdB { reg } => reg < 16 && (chip8.regs.i as usize) + 2 < MEMORY_SIZE,
        Instruction::LdRegsMem { end_reg } | Instruction::LdMemRegs { end_reg } => end_reg < 16 && (
        chip8.regs.i as usize) + (end_reg as usize) < MEMORY_SIZE,
    }
}

/// Executes `ins` on `chip8`; a random-number instruction draws its byte
/// from the thread-local generator, and every other instruction behaves as
/// `apply_instruction` says.
pub fn execute_instruction(ins: &Instruction, chip8: &mut Chip8)
    requires
        exec_ok(*ins, old(chip8)@),
    ensures
        exists|r: u8| final(chip8)@ == exec_spec(*ins, old(chip8)@, r),
        !(*ins is Rnd) ==> final(chip8)@ == exec_spec(*ins, old(chip8)@, 0),
{
    let r = if let Instruction::Rnd { .. } = ins { draw_random_byte() } else { 0 };
    apply_instruction(ins, chip8, r);
}

} // verus!
