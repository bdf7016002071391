//! The executable machine: the owned state, its view into the abstract
//! [`State`], construction with the font table loaded, ROM loading from a
//! byte buffer, and the keypad and display interfaces.

use vstd::prelude::*;

use crate::model::{
    spec_load_rom, spec_set_keypad, Chip8Error, State, FONTSET_SIZE, FONTSET_START_ADDRESS,
    MEMORY_SIZE, START_ADDRESS,
};

verus! {

/// The largest ROM image that fits between the start address and the end of
/// memory.
pub const MAX_ROM_SIZE: usize = 4096 - 0x200;

/// One CHIP-8 machine: registers, memory, call stack, timers, keypad
/// snapshot and display, exclusively owned.
pub struct Chip8 {
    /// The sixteen general registers V0..VF.
    pub registers: Vec<u8>,
    /// The 4096-byte memory: font table at 0x50, ROM from 0x200 up.
    pub memory: Vec<u8>,
    /// The index register I.
    pub index: u16,
    /// The program counter.
    pub pc: u16,
    /// The 16-entry call stack.
    pub stack: Vec<u16>,
    /// The stack pointer: how many stack entries are live.
    pub sp: usize,
    /// The delay timer.
    pub dt: u8,
    /// The sound timer.
    pub st: u8,
    /// The keypad snapshot: 16 key states, true when pressed.
    pub keypad: Vec<bool>,
    /// The 64x32 display, row-major, true when a pixel is on.
    pub video: Vec<bool>,
}

impl View for Chip8 {
    type V = State;

    open spec fn view(&self) -> State {
        State {
            regs: self.registers@,
            mem: self.memory@,
            index: self.index,
            pc: self.pc,
            stack: self.stack@,
            sp: self.sp as int,
            dt: self.dt,
            st: self.st,
            keypad: self.keypad@,
            video: self.video@,
        }
    }
}

/// The 80-byte font table: sixteen 5-byte sprites for the digits 0..F.
pub open spec fn spec_fontset() -> Seq<u8> {
    seq![
        0xF0u8, 0x90, 0x90, 0x90, 0xF0,
        0x20, 0x60, 0x20, 0x20, 0x70,
        0xF0, 0x10, 0xF0, 0x80, 0xF0,
        0xF0, 0x10, 0xF0, 0x10, 0xF0,
        0x90, 0x90, 0xF0, 0x10, 0x10,
        0xF0, 0x80, 0xF0, 0x10, 0xF0,
        0xF0, 0x80, 0xF0, 0x90, 0xF0,
        0xF0, 0x10, 0x20, 0x40, 0x40,
        0xF0, 0x90, 0xF0, 0x90, 0xF0,
        0xF0, 0x90, 0xF0, 0x10, 0xF0,
        0xF0, 0x90, 0xF0, 0x90, 0x90,
        0xE0, 0x90, 0xE0, 0x90, 0xE0,
        0xF0, 0x80, 0x80, 0x80, 0xF0,
        0xE0, 0x90, 0x90, 0x90, 0xE0,
        0xF0, 0x80, 0xF0, 0x80, 0xF0,
        0xF0, 0x80, 0xF0, 0x80, 0x80,
    ]
}

/// Memory at power-on: the font table at its fixed region, zero elsewhere.
pub open spec fn spec_initial_memory() -> Seq<u8> {
    Seq::new(
        4096,
        |a: int| if 0x50 <= a < 0xA0 { spec_fontset()[a - 0x50] } else { 0u8 },
    )
}

/// The machine at power-on: zeroed registers, font loaded, the program
/// counter at the start address, everything else empty.
pub open spec fn spec_initial_state() -> State {
    State {
        regs: Seq::new(16, |i: int| 0u8),
        mem: spec_initial_memory(),
        index: 0,
        pc: 0x200,
        stack: Seq::new(16, |i: int| 0u16),
        sp: 0,
        dt: 0,
        st: 0,
        keypad: Seq::new(16, |i: int| false),
        video: Seq::new(2048, |i: int| false),
    }
}

/// A vector of `n` zero bytes.
fn zero_bytes(n: usize) -> (v: Vec<u8>)
    ensures
        v@.len() == n,
        forall|i: int| 0 <= i < n ==> v@[i] == 0u8,
{
    let mut v: Vec<u8> = Vec::new();
    let mut i: usize = 0;
    while i < n
        invariant
            i <= n,
            v@.len() == i,
            forall|j: int| 0 <= j < i ==> v@[j] == 0u8,
        decreases n - i,
    {
        v.push(0);
        i += 1;
    }
    v
}

/// A vector of `n` zero words.
fn zero_words(n: usize) -> (v: Vec<u16>)
    ensures
        v@.len() == n,
        forall|i: int| 0 <= i < n ==> v@[i] == 0u16,
{
    let mut v: Vec<u16> = Vec::new();
    let mut i: usize = 0;
    while i < n
        invariant
            i <= n,
            v@.len() == i,
            forall|j: int| 0 <= j < i ==> v@[j] == 0u16,
        decreases n - i,
    {
        v.push(0);
        i += 1;
    }
    v
}

/// A vector of `n` cleared flags.
fn cleared_flags(n: usize) -> (v: Vec<bool>)
    ensures
        v@.len() == n,
        forall|i: int| 0 <= i < n ==> !v@[i],
{
    let mut v: Vec<bool> = Vec::new();
    let mut i: usize = 0;
    while i < n
        invariant
            i <= n,
            v@.len() == i,
            forall|j: int| 0 <= j < i ==> !v@[j],
        decreases n - i,
    {
        v.push(false);
        i += 1;
    }
    v
}

/// The font table as a buffer.
fn fontset() -> (v: Vec<u8>)
    ensures
        v@ == spec_fontset(),
{
    let v: Vec<u8> = vec![
        0xF0u8, 0x90, 0x90, 0x90, 0xF0,
        0x20, 0x60, 0x20, 0x20, 0x70,
        0xF0, 0x10, 0xF0, 0x80, 0xF0,
        0xF0, 0x10, 0xF0, 0x10, 0xF0,
        0x90, 0x90, 0xF0, 0x10, 0x10,
        0xF0, 0x80, 0xF0, 0x10, 0xF0,
        0xF0, 0x80, 0xF0, 0x90, 0xF0,
        0xF0, 0x10, 0x20, 0x40, 0x40,
        0xF0, 0x90, 0xF0, 0x90, 0xF0,
        0xF0, 0x90, 0xF0, 0x10, 0xF0,
        0xF0, 0x90, 0xF0, 0x90, 0x90,
        0xE0, 0x90, 0xE0, 0x90, 0xE0,
        0xF0, 0x80, 0x80, 0x80, 0xF0,
        0xE0, 0x90, 0x90, 0x90, 0xE0,
        0xF0, 0x80, 0xF0, 0x80, 0xF0,
        0xF0, 0x80, 0xF0, 0x80, 0x80,
    ];
    proof {
        assert(v@ =~= spec_fontset());
    }
    v
}

impl Chip8 {
    /// A machine at power-on: registers and timers zero, font loaded,
    /// program counter at the start address.
    pub fn new() -> (c: Chip8)
        ensures
            c@ == spec_initial_state(),
            c@.wf(),
    {
        let mut memory = zero_bytes(MEMORY_SIZE);
        let font = fontset();
        let mut i: usize = 0;
        while i < FONTSET_SIZE
            invariant
                i <= 80,
                font@ == spec_fontset(),
                memory@.len() == 4096,
                forall|j: int| 0x50 <= j < 0x50 + i ==> memory@[j] == spec_fontset()[j - 0x50],
                forall|j: int| 0 <= j < 4096 && !(0x50 <= j < 0x50 + i) ==> memory@[j] == 0u8,
            decreases 80 - i,
        {
            memory.set(FONTSET_START_ADDRESS + i, font[i]);
            i += 1;
        }
        let c = Chip8 {
            registers: zero_bytes(16),
            memory,
            index: 0,
            pc: START_ADDRESS,
            stack: zero_words(16),
            sp: 0,
            dt: 0,
            st: 0,
            keypad: cleared_flags(16),
            video: cleared_flags(64 * 32),
        };
        proof {
            assert(c.memory@ =~= spec_initial_memory());
            assert(c.registers@ =~= spec_initial_state().regs);
            assert(c.stack@ =~= spec_initial_state().stack);
            assert(c.keypad@ =~= spec_initial_state().keypad);
            assert(c.video@ =~= spec_initial_state().video);
            assert(c@ =~= spec_initial_state());
        }
        c
    }

    /// Write a ROM image into memory starting at the start address. An image
    /// larger than the space above the start address is refused whole, and
    /// the machine is left exactly as it was.
    pub fn load_rom(&mut self, rom: &Vec<u8>) -> (r: Result<(), Chip8Error>)
        requires
            old(self)@.wf(),
        ensures
            final(self)@.wf(),
            rom@.len() > 3584 ==> r == Err::<(), Chip8Error>(Chip8Error::RomLoadError)
                && final(self)@ == old(self)@,
            rom@.len() <= 3584 ==> r == Ok::<(), Chip8Error>(())
                && final(self)@ == spec_load_rom(old(self)@, rom@),
    {
        if rom.len() > MAX_ROM_SIZE {
            return Err(Chip8Error::RomLoadError);
        }
        let ghost s0 = self@;
        let n = rom.len();
        let mut i: usize = 0;
        while i < n
            invariant
                i <= n,
                n == rom@.len(),
                n <= 3584,
                self@ == (State { mem: self.memory@, ..s0 }),
                self.memory@.len() == 4096,
                forall|j: int| 0x200 <= j < 0x200 + i ==> self.memory@[j] == rom@[j - 0x200],
                forall|j: int|
                    0 <= j < 4096 && !(0x200 <= j < 0x200 + i) ==> self.memory@[j] == s0.mem[j],
            decreases n - i,
        {
            let b = rom[i];
            self.memory.set(0x200 + i, b);
            i += 1;
        }
        proof {
            assert(self.memory@ =~= spec_load_rom(s0, rom@).mem);
            assert(self@ =~= spec_load_rom(s0, rom@));
        }
        Ok(())
    }

    /// Take the caller's keypad snapshot for the coming steps.
    pub fn set_keypad(&mut self, keys: &Vec<bool>) -> (r: ())
        requires
            old(self)@.wf(),
            keys@.len() == 16,
        ensures
            final(self)@.wf(),
            final(self)@ == spec_set_keypad(old(self)@, keys@),
    {
        let ghost s0 = self@;
        let mut fresh: Vec<bool> = Vec::new();
        let mut i: usize = 0;
        while i < 16
            invariant
                i <= 16,
                keys@.len() == 16,
                fresh@.len() == i,
                forall|j: int| 0 <= j < i ==> fresh@[j] == keys@[j],
                self@ == s0,
            decreases 16 - i,
        {
            let k = keys[i];
            fresh.push(k);
            i += 1;
        }
        self.keypad = fresh;
        proof {
            assert(self.keypad@ =~= keys@);
            assert(self@ =~= spec_set_keypad(s0, keys@));
        }
    }

    /// Read one display pixel; `x` counts columns from the left, `y` rows
    /// from the top.
    pub fn pixel(&self, x: usize, y: usize) -> (p: bool)
        requires
            self@.wf(),
            x < 64,
            y < 32,
        ensures
            p == self@.video[y * 64 + x],
    {
        self.video[y * 64 + x]
    }
}

} // verus!
