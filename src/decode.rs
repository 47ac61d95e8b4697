use vstd::prelude::*;

verus! {

/// One decoded instruction. Register operands are indices `0x0..=0xF`.
#[derive(PartialEq, Eq, Debug, Clone, Copy, Structural)]
pub enum Instruction {
    Cls,
    Ret,
    Jmp { address: u16 },
    Call { address: u16 },
    Se { reg: u8, val: u8 },
    Sne { reg: u8, val: u8 },
    SeReg { reg1: u8, reg2: u8 },
    Ld { reg: u8, val: u8 },
    Add { reg: u8, val: u8 },
    LdReg { reg1: u8, reg2: u8 },
    Or { reg1: u8, reg2: u8 },
    And { reg1: u8, reg2: u8 },
    Xor { reg1: u8, reg2: u8 },
    AddReg { reg1: u8, reg2: u8 },
    SubReg { reg1: u8, reg2: u8 },
    Shr { reg1: u8, reg2: u8 },
    SubRegN { reg1: u8, reg2: u8 },
    Shl { reg1: u8, reg2: u8 },
    SneReg { reg1: u8, reg2: u8 },
    Ldi { address: u16 },
    JmpV0 { address: u16 },
    Rnd { reg: u8, mask: u8 },
    Drw { reg1: u8, reg2: u8, n_bytes: u8 },
    Skp { reg: u8 },
    SkpNp { reg: u8 },
    LdFromDt { reg: u8 },
    LdKey { reg: u8 },
    LdIntoDt { reg: u8 },
    LdSt { reg: u8 },
    AddI { reg: u8 },
    LdF { reg: u8 },
    LdB { reg: u8 },
    LdRegsMem { end_reg: u8 },
    LdMemRegs { end_reg: u8 },
}

/// Nibble `i` (`0..=3`) of `x`, counting from the least significant.
pub open spec fn nibble(x: u16, i: int) -> u8 {
    let shifted = if i == 0 {
        x as int
    } else if i == 1 {
        x as int / 0x10
    } else if i == 2 {
        x as int / 0x100
    } else {
        x as int / 0x1000
    };
    (shifted % 0x10) as u8
}

/// The low twelve bits of `w`: an address operand.
pub open spec fn address_of(w: u16) -> u16 {
    (w % 0x1000) as u16
}

/// The low byte of `w`: an immediate operand.
pub open spec fn low_byte(w: u16) -> u8 {
    (w % 0x100) as u8
}

/// The instruction that the word `w` encodes, or `None` where `w` is not
/// an opcode of the instruction set.
pub open spec fn decode_spec(w: u16) -> Option<Instruction> {
    let x = nibble(w, 2);
    let y = nibble(w, 1);
    let n = nibble(w, 0);
    let kk = low_byte(w);
    let nnn = address_of(w);
    let top = nibble(w, 3);
    if top == 0x0 {
        if w == 0x00E0 {
            Some(Instruction::Cls)
        } else if w == 0x00EE {
            Some(Instruction::Ret)
        } else {
            None
        }
    } else if top == 0x1 {
        Some(Instruction::Jmp { address: nnn })
    } else if top == 0x2 {
        Some(Instruction::Call { address: nnn })
    } else if top == 0x3 {
        Some(Instruction::Se { reg: x, val: kk })
    } else if top == 0x4 {
        Some(Instruction::Sne { reg: x, val: kk })
    } else if top == 0x5 {
        Some(Instruction::SeReg { reg1: x, reg2: y })
    } else if top == 0x6 {
        Some(Instruction::Ld { reg: x, val: kk })
    } else if top == 0x7 {
        Some(Instruction::Add { reg: x, val: kk })
    } else if top == 0x8 {
        if n == 0x0 {
            Some(Instruction::LdReg { reg1: x, reg2: y })
        } else if n == 0x1 {
            Some(Instruction::Or { reg1: x, reg2: y })
        } else if n == 0x2 {
            Some(Instruction::And { reg1: x, reg2: y })
        } else if n == 0x3 {
            Some(Instruction::Xor { reg1: x, reg2: y })
        } else if n == 0x4 {
            Some(Instruction::AddReg { reg1: x, reg2: y })
        } else if n == 0x5 {
            Some(Instruction::SubReg { reg1: x, reg2: y })
        } else if n == 0x6 {
            Some(Instruction::Shr { reg1: x, reg2: y })
        } else if n == 0x7 {
            Some(Instruction::SubRegN { reg1: x, reg2: y })
        } else if n == 0xE {
            Some(Instruction::Shl { reg1: x, reg2: y })
        } else {
            None
        }
    } else if top == 0x9 {
        Some(Instruction::SneReg { reg1: x, reg2: y })
    } else if top == 0xA {
        Some(Instruction::Ldi { address: nnn })
    } else if top == 0xB {
        Some(Instruction::JmpV0 { address: nnn })
    } else if top == 0xC {
        Some(Instruction::Rnd { reg: x, mask: kk })
    } else if top == 0xD {
        Some(Instruction::Drw { reg1: x, reg2: y, n_bytes: n })
    } else if top == 0xE {
        if kk == 0x9E {
            Some(Instruction::Skp { reg: x })
        } else if kk == 0xA1 {
            Some(Instruction::SkpNp { reg: x })
        } else {
            None
        }
    } else {
        if kk == 0x07 {
            Some(Instruction::LdFromDt { reg: x })
        } else if kk == 0x0A {
            Some(Instruction::LdKey { reg: x })
        } else if kk == 0x15 {
            Some(Instruction::LdIntoDt { reg: x })
        } else if kk == 0x18 {
            Some(Instruction::LdSt { reg: x })
        } else if kk == 0x1E {
            Some(Instruction::AddI { reg: x })
        } else if kk == 0x29 {
            Some(Instruction::LdF { reg: x })
        } else if kk == 0x33 {
            Some(Instruction::LdB { reg: x })
        } else if kk == 0x55 {
            Some(Instruction::LdRegsMem { end_reg: x })
        } else if kk == 0x65 {
            Some(Instruction::LdMemRegs { end_reg: x })
        } else {
            None
        }
    }
}

/// Whether `w` is in the opcode table: `00E0`, `00EE`, every word of the
/// families `1` to `7` and `9` to `D`, `8xyN` for `N` in `0..=7` or `E`,
/// `Ex9E`, `ExA1`, and `FxKK` for the nine `KK` of the timer, key, index,
/// font, BCD and register-block instructions.
pub open spec fn in_opcode_table(w: u16) -> bool {
    let family = w / 0x1000;
    let n = w % 0x10;
    let kk = w % 0x100;
    ||| w == 0x00E0
    ||| w == 0x00EE
    ||| 0x1 <= family <= 0x7
    ||| family == 0x8 && (n <= 0x7 || n == 0xE)
    ||| 0x9 <= family <= 0xD
    ||| family == 0xE && (kk == 0x9E || kk == 0xA1)
    ||| family == 0xF && (kk == 0x07 || kk == 0x0A || kk == 0x15 || kk == 0x18 || kk == 0x1E
        || kk == 0x29 || kk == 0x33 || kk == 0x55 || kk == 0x65)
}

/// Decoding succeeds on exactly the words of the opcode table and fails on
/// every other word, unrecognised selectors of the `8`, `E` and `F`
/// families included.
pub proof fn lemma_decode_defined_on_table(w: u16)
    ensures
        decode_spec(w) is Some <==> in_opcode_table(w),
{
}

/// Gets nibble `i` (a half-byte) of `x`, nibble 0 being the least
/// significant: `get_nibble_u16(0xABCD, 0) == 0xD`.
pub fn get_nibble_u16(x: u16, i: u8) -> (r: u8)
    requires
        i < 4,
    ensures
        r == nibble(x, i as int),
        r < 16,
{
    let shift: u16 = (i * 4) as u16;
    let r = ((x >> shift) & 0xF) as u8;
    if i == 0 {
        assert((x >> 0u16) & 0xFu16 == x % 0x10) by (bit_vector);
    } else if i == 1 {
        assert((x >> 4u16) & 0xFu16 == (x / 0x10) % 0x10) by (bit_vector);
    } else if i == 2 {
        assert((x >> 8u16) & 0xFu16 == (x / 0x100) % 0x10) by (bit_vector);
    } else {
        assert((x >> 12u16) & 0xFu16 == (x / 0x1000) % 0x10) by (bit_vector);
    }
    r
}

/// Decodes `instruction`, returning `None` where it is not an opcode of the
/// instruction set.
pub fn decode_opcode(instruction: u16) -> (r: Option<Instruction>)
    ensures
        r == decode_spec(instruction),
{
    let w = instruction;
    let x = get_nibble_u16(w, 2);
    let y = get_nibble_u16(w, 1);
    let n = get_nibble_u16(w, 0);
    let kk = (w % 0x100) as u8;
    let nnn = w % 0x1000;
    match get_nibble_u16(w, 3) {
        0x0 => {
            if w == 0x00E0 {
                Some(Instruction::Cls)
            } else if w == 0x00EE {
                Some(Instruction::Ret)
            } else {
                None
            }
        },
        0x1 => Some(Instruction::Jmp { address: nnn }),
        0x2 => Some(Instruction::Call { address: nnn }),
        0x3 => Some(Instruction::Se { reg: x, val: kk }),
        0x4 => Some(Instruction::Sne { reg: x, val: kk }),
        0x5 => Some(Instruction::SeReg { reg1: x, reg2: y }),
        0x6 => Some(Instruction::Ld { reg: x, val: kk }),
        0x7 => Some(Instruction::Add { reg: x, val: kk }),
        0x8 => match n {
            0x0 => Some(Instruction::LdReg { reg1: x, reg2: y }),
            0x1 => Some(Instruction::Or { reg1: x, reg2: y }),
            0x2 => Some(Instruction::And { reg1: x, reg2: y }),
            0x3 => Some(Instruction::Xor { reg1: x, reg2: y }),
            0x4 => Some(Instruction::AddReg { reg1: x, reg2: y }),
            0x5 => Some(Instruction::SubReg { reg1: x, reg2: y }),
            0x6 => Some(Instruction::Shr { reg1: x, reg2: y }),
            0x7 => Some(Instruction::SubRegN { reg1: x, reg2: y }),
            0xE => Some(Instruction::Shl { reg1: x, reg2: y }),
            _ => None,
        },
        0x9 => Some(Instruction::SneReg { reg1: x, reg2: y }),
        0xA => Some(Instruction::Ldi { address: nnn }),
        0xB => Some(Instruction::JmpV0 { address: nnn }),
        0xC => Some(Instruction::Rnd { reg: x, mask: kk }),
        0xD => Some(Instruction::Drw { reg1: x, reg2: y, n_bytes: n }),
        0xE => match kk {
            0x9E => Some(Instruction::Skp { reg: x }),
            0xA1 => Some(Instruction::SkpNp { reg: x }),
            _ => None,
        },
        _ => match kk {
            0x07 => Some(Instruction::LdFromDt { reg: x }),
            0x0A => Some(Instruction::LdKey { reg: x }),
            0x15 => Some(Instruction::LdIntoDt { reg: x }),
            0x18 => Some(Instruction::LdSt { reg: x }),
            0x1E => Some(Instruction::AddI { reg: x }),
            0x29 => Some(Instruction::LdF { reg: x }),
            0x33 => Some(Instruction::LdB { reg: x }),
            0x55 => Some(Instruction::LdRegsMem { end_reg: x }),
            0x65 => Some(Instruction::LdMemRegs { end_reg: x }),
            _ => None,
        },
    }
}

/// Decodes `instruction`, which must be an opcode of the instruction set.
pub fn decode_instruction(instruction: u16) -> (r: Instruction)
    requires
        decode_spec(instruction) is Some,
    ensures
        decode_spec(instruction) == Some(r),
{
    match decode_opcode(instruction) {
        Some(ins) => ins,
        None => Instruction::Cls,
    }
}

} // verus!
