use vstd::prelude::*;

verus! {

/// Width of the display in pixels.
pub const SCREEN_WIDTH: u8 = 64;

/// Height of the display in pixels.
pub const SCREEN_HEIGHT: u8 = 32;

/// Number of cells in the display buffer (one byte per pixel).
pub const DISP_BUFFER_SIZE: usize = 2048;

/// Depth of the return-address stack.
pub const STACK_SIZE: usize = 16;

/// Number of addressable bytes of memory.
pub const MEMORY_SIZE: usize = 4096;

/// Number of keys on the keypad.
pub const KEY_COUNT: usize = 16;

/// The register file.
pub struct Registers {
    /// General purpose registers `V0`..`VF`; `VF` doubles as a flag.
    pub general: [u8; 16],
    /// Delay timer.
    pub dt: u8,
    /// Sound timer.
    pub st: u8,
    /// Program counter.
    pub pc: u16,
    /// Stack pointer.
    pub sp: u8,
    /// Index register.
    pub i: u16,
}

/// The whole machine: registers, display, stack, memory and keypad.
pub struct Chip8 {
    pub regs: Registers,
    /// Row-major display buffer: pixel `(x, y)` is cell `y * 64 + x`;
    /// a non-zero cell is lit.
    pub disp_buffer: [u8; DISP_BUFFER_SIZE],
    pub stack: [u16; STACK_SIZE],
    pub memory: [u8; MEMORY_SIZE],
    pub key_down: [bool; KEY_COUNT],
}

/// The mathematical model of a machine state.
#[verifier::ext_equal]
pub ghost struct Machine {
    pub general: Seq<u8>,
    pub dt: u8,
    pub st: u8,
    pub pc: u16,
    pub sp: u8,
    pub i: u16,
    pub disp: Seq<u8>,
    pub stack: Seq<u16>,
    pub memory: Seq<u8>,
    pub keys: Seq<bool>,
}

impl View for Chip8 {
    type V = Machine;

    open spec fn view(&self) -> Machine {
        Machine {
            general: self.regs.general@,
            dt: self.regs.dt,
            st: self.regs.st,
            pc: self.regs.pc,
            sp: self.regs.sp,
            i: self.regs.i,
            disp: self.disp_buffer@,
            stack: self.stack@,
            memory: self.memory@,
            keys: self.key_down@,
        }
    }
}

/// Number of bytes in the built-in font: sixteen glyphs of five rows each.
pub const FONT_SIZE: usize = 80;

/// Address at which programs are loaded and run.
pub const PROGRAM_START: u16 = 0x200;

/// The built-in font, glyphs `0` to `F` in order, five bytes each.
pub open spec fn font_glyphs() -> Seq<u8> {
    seq![
            0xF0, 0x90, 0x90, 0x90, 0xF0,
            0x20, 0x60, 0x20, 0x20, 0x70,
            0xF0, 0x10, 0xF0, 0x80, 0xF0,
            0xF0, 0x10, 0xF0, 0x10, 0xF0,
            0x90, 0x90, 0xF0, 0x10, 0x10,
            0xF0, 0x80, 0xF0, 0x10, 0xF0,
            0xF0, 0x80, 0xF0, 0x90, 0xF0,
            0xF0, 0x10, 0x20, 0x40, 0x40,
            0xF0, 0x90, 0xF0, 0x90, 0xF0,
            0xF0, 0x90, 0xF0, 0x10, 0xF0,
            0xF0, 0x90, 0xF0, 0x90, 0x90,
            0xE0, 0x90, 0xE0, 0x90, 0xE0,
            0xF0, 0x80, 0x80, 0x80, 0xF0,
            0xE0, 0x90, 0x90, 0x90, 0xE0,
            0xF0, 0x80, 0xF0, 0x80, 0xF0,
            0xF0, 0x80, 0xF0, 0x80, 0x80,
    ]
}

/// Linear index of pixel `(x, y)` in the display buffer.
pub open spec fn px_index(x: int, y: int) -> int {
    y * SCREEN_WIDTH + x
}

/// The big-endian word made of the bytes at `addr` and `addr + 1`.
pub open spec fn word_at(memory: Seq<u8>, addr: int) -> u16 {
    (memory[addr] * 256 + memory[addr + 1]) as u16
}

/// Whether bit `b` of a sprite row is set, bit 0 being the leftmost
/// (most significant) one.
pub open spec fn sprite_bit(byte: u8, b: int) -> bool {
    (byte >> (7 - b) as u8) & 1u8 == 1u8
}

/// Whether drawing the `n`-row sprite stored at the index register of `s`,
/// with its top-left corner at `(x, y)`, flips pixel `(px, py)`. Pixels past
/// the right or bottom edge are dropped, not wrapped.
pub open spec fn sprite_covers(s: Machine, x: int, y: int, n: int, px: int, py: int) -> bool {
    &&& x <= px < x + 8
    &&& px < SCREEN_WIDTH
    &&& y <= py < y + n
    &&& py < SCREEN_HEIGHT
    &&& sprite_bit(s.memory[s.i + (py - y)], px - x)
}

/// The display after that sprite is XOR-drawn: each flipped pixel has its
/// low bit toggled.
pub open spec fn drawn_display(s: Machine, x: int, y: int, n: int) -> Seq<u8> {
    Seq::new(
        DISP_BUFFER_SIZE as nat,
        |p: int|
            if sprite_covers(s, x, y, n, p % 64, p / 64) {
                s.disp[p] ^ 1u8
            } else {
                s.disp[p]
            },
    )
}

/// Whether drawing that sprite flips a pixel that was lit.
pub open spec fn sprite_collides(s: Machine, x: int, y: int, n: int) -> bool {
    exists|px: int, py: int|
        0 <= px < SCREEN_WIDTH && 0 <= py < SCREEN_HEIGHT && #[trigger] sprite_covers(s, x, y, n, px, py)
            && s.disp[px_index(px, py)] != 0
}

/// How many sprite rows fall on the screen when drawing `n` rows from row `y`.
pub open spec fn visible_rows(y: int, n: int) -> int {
    if n < SCREEN_HEIGHT - y { n } else { SCREEN_HEIGHT - y }
}

/// A counter that steps down by one unless it is already zero.
pub open spec fn count_down(t: u8) -> u8 {
    if t > 0 { (t - 1) as u8 } else { 0 }
}

impl Machine {
    /// Every part has the size of the machine's: the view of any `Chip8`.
    pub open spec fn wf(self) -> bool {
        &&& self.general.len() == 16
        &&& self.disp.len() == DISP_BUFFER_SIZE
        &&& self.stack.len() == STACK_SIZE
        &&& self.memory.len() == MEMORY_SIZE
        &&& self.keys.len() == KEY_COUNT
    }

    /// Every register, cell and flag is zero.
    pub open spec fn is_zeroed(self) -> bool {
        &&& self.general == Seq::new(16, |k: int| 0u8)
        &&& self.dt == 0 && self.st == 0 && self.pc == 0 && self.sp == 0 && self.i == 0
        &&& self.disp == Seq::new(DISP_BUFFER_SIZE as nat, |k: int| 0u8)
        &&& self.stack == Seq::new(STACK_SIZE as nat, |k: int| 0u16)
        &&& self.memory == Seq::new(MEMORY_SIZE as nat, |k: int| 0u8)
        &&& self.keys == Seq::new(KEY_COUNT as nat, |k: int| false)
    }

    /// This state with `memory` from `start` on replaced by `data`.
    pub open spec fn with_bytes(self, start: int, data: Seq<u8>) -> Machine {
        Machine {
            memory: Seq::new(self.memory.len(), |a: int|
                if start <= a < start + data.len() { data[a - start] } else { self.memory[a] }),
            ..self
        }
    }

    /// This state with the font written at the bottom of memory.
    pub open spec fn with_font(self) -> Machine {
        self.with_bytes(0, font_glyphs())
    }

    /// This state with both timers counted down once.
    pub open spec fn with_timers_decremented(self) -> Machine {
        Machine { dt: count_down(self.dt), st: count_down(self.st), ..self }
    }
}

impl Registers {
    /// All registers zero.
    pub fn new() -> (r: Registers)
        ensures
            r.general@ == Seq::new(16, |k: int| 0u8),
            r.dt == 0 && r.st == 0 && r.pc == 0 && r.sp == 0 && r.i == 0,
    {
        let r = Registers { general: [0u8; 16], dt: 0, st: 0, pc: 0, sp: 0, i: 0 };
        assert(r.general@ =~= Seq::new(16, |k: int| 0u8));
        r
    }
}

impl Chip8 {
    /// A machine with every field zero.
    pub fn new() -> (c: Chip8)
        ensures
            c@.is_zeroed(),
    {
        let c = Chip8 {
            regs: Registers::new(),
            disp_buffer: [0u8; DISP_BUFFER_SIZE],
            stack: [0u16; STACK_SIZE],
            memory: [0u8; MEMORY_SIZE],
            key_down: [false; KEY_COUNT],
        };
        assert(c.disp_buffer@ =~= Seq::new(DISP_BUFFER_SIZE as nat, |k: int| 0u8));
        assert(c.stack@ =~= Seq::new(STACK_SIZE as nat, |k: int| 0u16));
        assert(c.memory@ =~= Seq::new(MEMORY_SIZE as nat, |k: int| 0u8));
        assert(c.key_down@ =~= Seq::new(KEY_COUNT as nat, |k: int| false));
        c
    }

    /// Counts the delay and sound timers down by one each, stopping at zero.
    pub fn decrement_timers(&mut self)
        ensures
            final(self)@ == old(self)@.with_timers_decremented(),
    {
        if self.regs.dt > 0 {
            self.regs.dt = self.regs.dt - 1;
        }
        if self.regs.st > 0 {
            self.regs.st = self.regs.st - 1;
        }
    }

    /// Writes `data` into memory from `start_addr` on, byte for byte.
    pub fn load_into_mem(&mut self, data: &Vec<u8>, start_addr: u16)
        requires
            start_addr as int + data@.len() <= MEMORY_SIZE,
        ensures
            final(self)@ == old(self)@.with_bytes(start_addr as int, data@),
    {
        let start = start_addr as usize;
        let mut k: usize = 0;
        while k < data.len()
            invariant
                start + data@.len() <= MEMORY_SIZE,
                k <= data@.len(),
                self.regs == old(self).regs,
                self.disp_buffer == old(self).disp_buffer,
                self.stack == old(self).stack,
                self.key_down == old(self).key_down,
                forall|a: int| 0 <= a < MEMORY_SIZE ==> #[trigger] self.memory@[a] ==
                    if start <= a < start + k { data@[a - start] } else { old(self).memory@[a] },
            decreases data@.len() - k,
        {
            self.memory[start + k] = data[k];
            k = k + 1;
        }
        assert(self@ =~= old(self)@.with_bytes(start_addr as int, data@));
    }

    /// Writes the built-in font to addresses `0..80`.
    pub fn load_font(&mut self)
        ensures
            final(self)@ == old(self)@.with_font(),
    {
        let font: [u8; FONT_SIZE] = [
            0xF0, 0x90, 0x90, 0x90, 0xF0,
            0x20, 0x60, 0x20, 0x20, 0x70,
            0xF0, 0x10, 0xF0, 0x80, 0xF0,
            0xF0, 0x10, 0xF0, 0x10, 0xF0,
            0x90, 0x90, 0xF0, 0x10, 0x10,
            0xF0, 0x80, 0xF0, 0x10, 0xF0,
            0xF0, 0x80, 0xF0, 0x90, 0xF0,
            0xF0, 0x10, 0x20, 0x40, 0x40,
            0xF0, 0x90, 0xF0, 0x90, 0xF0,
            0xF0, 0x90, 0xF0, 0x10, 0xF0,
            0xF0, 0x90, 0xF0, 0x90, 0x90,
            0xE0, 0x90, 0xE0, 0x90, 0xE0,
            0xF0, 0x80, 0x80, 0x80, 0xF0,
            0xE0, 0x90, 0x90, 0x90, 0xE0,
            0xF0, 0x80, 0xF0, 0x80, 0xF0,
            0xF0, 0x80, 0xF0, 0x80, 0x80,
        ];
        assert(font@ =~= font_glyphs());
        let mut k: usize = 0;
        while k < FONT_SIZE
            invariant
                font@ == font_glyphs(),
                k <= FONT_SIZE,
                self.regs == old(self).regs,
                self.disp_buffer == old(self).disp_buffer,
                self.stack == old(self).stack,
                self.key_down == old(self).key_down,
                forall|a: int| 0 <= a < MEMORY_SIZE ==> #[trigger] self.memory@[a] ==
                    if a < k { font@[a] } else { old(self).memory@[a] },
            decreases FONT_SIZE - k,
        {
            self.memory[k] = font[k];
            k = k + 1;
        }
        assert(self@ =~= old(self)@.with_font());
    }

    /// The pixel at `(x, y)`.
    pub fn get_px(&self, x: u8, y: u8) -> (r: u8)
        requires
            x < SCREEN_WIDTH,
            y < SCREEN_HEIGHT,
        ensures
            r == self@.disp[px_index(x as int, y as int)],
    {
        self.disp_buffer[y as usize * SCREEN_WIDTH as usize + x as usize]
    }

    /// Sets the pixel at `(x, y)` to `val`.
    pub fn set_px(&mut self, x: u8, y: u8, val: u8)
        requires
            x < SCREEN_WIDTH,
            y < SCREEN_HEIGHT,
        ensures
            final(self)@ == (Machine {
                disp: old(self)@.disp.update(px_index(x as int, y as int), val),
                ..old(self)@
            }),
    {
        self.disp_buffer[y as usize * SCREEN_WIDTH as usize + x as usize] = val;
        assert(self@ =~= (Machine {
            disp: old(self)@.disp.update(px_index(x as int, y as int), val),
            ..old(self)@
        }));
    }

    /// XOR-draws one sprite row `byte` at `(x, cy)`, dropping the pixels
    /// past the right edge; tells whether a lit pixel was flipped.
    fn draw_row(&mut self, x: u8, cy: u8, byte: u8) -> (hit: bool)
        requires
            x < SCREEN_WIDTH,
            cy < SCREEN_HEIGHT,
        ensures
            final(self)@ == (Machine { disp: final(self)@.disp, ..old(self)@ }),
            forall|px: int, py: int|
                0 <= px < SCREEN_WIDTH && 0 <= py < SCREEN_HEIGHT ==> #[trigger] final(self)@.disp[px_index(px, py)]
                    == if py == cy && x <= px < x + 8 && sprite_bit(byte, px - x) {
                    old(self)@.disp[px_index(px, py)] ^ 1u8
                } else {
                    old(self)@.disp[px_index(px, py)]
                },
            hit <==> exists|px: int|
                x <= px < x + 8 && px < SCREEN_WIDTH && #[trigger] sprite_bit(byte, px - x)
                    && old(self)@.disp[px_index(px, cy as int)] != 0,
    {
        let cols: u8 = if 8 < SCREEN_WIDTH - x { 8 } else { SCREEN_WIDTH - x };
        let mut hit = false;
        let mut b: u8 = 0;
        while b < cols
            invariant
                x < SCREEN_WIDTH,
                cy < SCREEN_HEIGHT,
                cols == if 8 < SCREEN_WIDTH - x { 8 } else { SCREEN_WIDTH - x },
                b <= cols,
                self@ == (Machine { disp: self@.disp, ..old(self)@ }),
                self@.disp.len() == DISP_BUFFER_SIZE,
                forall|px: int, py: int|
                    0 <= px < SCREEN_WIDTH && 0 <= py < SCREEN_HEIGHT ==> #[trigger] self@.disp[px_index(px, py)]
                        == if py == cy && x <= px < x + b && sprite_bit(byte, px - x) {
                        old(self)@.disp[px_index(px, py)] ^ 1u8
                    } else {
                        old(self)@.disp[px_index(px, py)]
                    },
                hit <==> exists|px: int|
                    x <= px < x + b && #[trigger] sprite_bit(byte, px - x)
                        && old(self)@.disp[px_index(px, cy as int)] != 0,
            decreases cols - b,
        {
            let cx = x + b;
            let bit = (byte >> (7 - b)) & 1;
            if bit == 1 {
                let old_px = self.get_px(cx, cy);
                if old_px != 0 {
                    hit = true;
                }
                self.set_px(cx, cy, old_px ^ 1);
            }
            assert(sprite_bit(byte, cx - x) == (bit == 1));
            b = b + 1;
        }
        hit
    }

    /// XOR-draws the `n`-row sprite stored at the index register with its
    /// top-left corner at `(x, y)`; tells whether a lit pixel was flipped.
    pub(crate) fn draw_sprite(&mut self, x: u8, y: u8, n: u8) -> (hit: bool)
        requires
            x < SCREEN_WIDTH,
            y < SCREEN_HEIGHT,
            old(self)@.i + visible_rows(y as int, n as int) <= MEMORY_SIZE,
        ensures
            final(self)@ == (Machine { disp: drawn_display(old(self)@, x as int, y as int, n as int), ..old(self)@ }),
            hit == sprite_collides(old(self)@, x as int, y as int, n as int),
    {
        let ghost s = self@;
        let rows: u8 = if n < SCREEN_HEIGHT - y { n } else { SCREEN_HEIGHT - y };
        let mut hit = false;
        let mut row: u8 = 0;
        while row < rows
            invariant
                s == old(self)@,
                x < SCREEN_WIDTH,
                y < SCREEN_HEIGHT,
                rows == visible_rows(y as int, n as int),
                s.i + rows <= MEMORY_SIZE,
                row <= rows,
                self@ == (Machine { disp: self@.disp, ..s }),
                self@.disp.len() == DISP_BUFFER_SIZE,
                forall|px: int, py: int|
                    0 <= px < SCREEN_WIDTH && 0 <= py < SCREEN_HEIGHT ==> #[trigger] self@.disp[px_index(px, py)]
                        == if py < y + row && sprite_covers(s, x as int, y as int, n as int, px, py) {
                        s.disp[px_index(px, py)] ^ 1u8
                    } else {
                        s.disp[px_index(px, py)]
                    },
                hit <==> exists|px: int, py: int|
                    0 <= px < SCREEN_WIDTH && 0 <= py < y + row && #[trigger] sprite_covers(s, x as int, y as int, n as int, px, py)
                        && s.disp[px_index(px, py)] != 0,
            decreases rows - row,
        {
            let byte = self.memory[self.regs.i as usize + row as usize];
            let cy = y + row;
            let ghost before = self@;
            let row_hit = self.draw_row(x, cy, byte);
            if row_hit {
                let ghost w = choose|px: int|
                    x <= px < x + 8 && px < SCREEN_WIDTH && #[trigger] sprite_bit(byte, px - x)
                        && before.disp[px_index(px, cy as int)] != 0;
                assert(sprite_covers(s, x as int, y as int, n as int, w, cy as int));
                hit = true;
            }
            assert forall|px: int, py: int|
                0 <= px < SCREEN_WIDTH && 0 <= py < y + row + 1 && #[trigger] sprite_covers(s, x as int, y as int, n as int, px, py)
                    && s.disp[px_index(px, py)] != 0 implies hit by {
                if py == cy {
                    assert(sprite_bit(byte, px - x));
                    assert(before.disp[px_index(px, cy as int)] == s.disp[px_index(px, py)]);
                }
            }
            row = row + 1;
        }
        assert forall|p: int| 0 <= p < DISP_BUFFER_SIZE implies #[trigger] self@.disp[p]
            == drawn_display(s, x as int, y as int, n as int)[p] by {
            let px = p % 64;
            let py = p / 64;
            assert(p == px_index(px, py));
        }
        assert(self@ =~= (Machine { disp: drawn_display(s, x as int, y as int, n as int), ..s }));
        hit
    }
}

/// A machine ready to run a program: all zero, the font loaded, and the
/// program counter at the program start address.
pub fn make_chip8() -> (c: Chip8)
    ensures
        exists|z: Machine| z.is_zeroed() && c@ == (Machine { pc: PROGRAM_START, ..z.with_font() }),
{
    let mut c = Chip8::new();
    let ghost z = c@;
    c.load_font();
    c.regs.pc = PROGRAM_START;
    assert(c@ =~= (Machine { pc: PROGRAM_START, ..z.with_font() }));
    c
}

/// Reads the big-endian word at the program counter and advances the
/// program counter past it.
pub fn fetch_instruction(registers: &mut Registers, memory: &[u8; MEMORY_SIZE]) -> (r: u16)
    requires
        old(registers).pc + 1 < MEMORY_SIZE,
    ensures
        r == word_at(memory@, old(registers).pc as int),
        final(registers).pc == old(registers).pc + 2,
        final(registers).general == old(registers).general,
        final(registers).dt == old(registers).dt,
        final(registers).st == old(registers).st,
        final(registers).sp == old(registers).sp,
        final(registers).i == old(registers).i,
{
    let high_byte = memory[registers.pc as usize] as u16;
    let low_byte = memory[registers.pc as usize + 1] as u16;
    registers.pc = registers.pc + 2;
    high_byte * 256 + low_byte
}

} // verus!
