//! The machine: memory, registers, program counter, call stack, timers and
//! keypad latch, and the instructions that act on them.

use vstd::prelude::*;

use crate::alu::{
    add_carry, borrow, carry, difference_low, double_low, half, high_bit, low_bit, shift_left,
    shift_right, sub_borrow, sum_low,
};
use crate::instruction::{decoding, Instruction, ParseError};
use crate::peripherals::{await_collision, pending_keys, random_byte, send_update};

verus! {

/// Why the machine cannot go on.
#[derive(Debug, Clone, Copy, PartialEq, Eq, Structural)]
pub enum MachineError {
    /// The word at the program counter encodes no instruction.
    Decode(ParseError),
    /// A return found the call stack empty.
    StackUnderflow,
    /// The other end of the display channel or of the collision channel is
    /// gone.
    ChannelDisconnected,
    /// The instruction, or the memory it reads or writes, does not lie
    /// within the 4096 bytes of memory.
    AddressOutOfRange,
}

/// Why a program could not be loaded.
#[derive(Debug, Clone, Copy, PartialEq, Eq, Structural)]
pub enum LoadError {
    /// The program is longer than the memory from the load address on.
    ProgramTooLarge,
}

/// The state of a machine as a mathematical value.
#[verifier::ext_equal]
pub struct MachineState {
    /// The 4096 bytes of memory.
    pub memory: Seq<u8>,
    /// The 16 general registers. The last one doubles as the flag.
    pub registers: Seq<u8>,
    /// The address register.
    pub reg_i: u16,
    /// The delay timer.
    pub delay: u8,
    /// The sound timer.
    pub sound: u8,
    /// The program counter: the address of the next instruction.
    pub ip: u16,
    /// The return addresses of the calls under way, the latest last.
    pub stack: Seq<u16>,
    /// The keypad latch: the key last reported as held, 0 for none.
    pub keys: u16,
}

impl MachineState {
    /// A state has 4096 bytes of memory and 16 registers.
    pub open spec fn wf(self) -> bool {
        &&& self.memory.len() == 0x1000
        &&& self.registers.len() == 16
    }

    /// The state of a machine with nothing loaded: all zero but for the
    /// program counter, which stands at the load address.
    pub open spec fn initial() -> MachineState {
        MachineState {
            memory: Seq::new(0x1000, |a: int| 0u8),
            registers: Seq::new(16, |r: int| 0u8),
            reg_i: 0,
            delay: 0,
            sound: 0,
            ip: 0x200,
            stack: Seq::empty(),
            keys: 0,
        }
    }

    /// The initial state with `program` in memory from the load address on.
    pub open spec fn loaded(program: Seq<u8>) -> MachineState {
        MachineState {
            memory: Seq::new(
                0x1000,
                |a: int|
                    if 0x200 <= a < 0x200 + program.len() {
                        program[a - 0x200]
                    } else {
                        0u8
                    },
            ),
            ..MachineState::initial()
        }
    }

    /// The value of register `r`.
    pub open spec fn reg(self, r: u8) -> u8 {
        self.registers[r as int]
    }

    /// This state with `v` in register `r`.
    pub open spec fn with_reg(self, r: u8, v: u8) -> MachineState {
        MachineState { registers: self.registers.update(r as int, v), ..self }
    }

    /// This state with `v` in the flag register.
    pub open spec fn with_flag(self, v: u8) -> MachineState {
        self.with_reg(0xF, v)
    }

    /// This state with `v` in memory at address `a`.
    pub open spec fn with_mem(self, a: u16, v: u8) -> MachineState {
        MachineState { memory: self.memory.update(a as int, v), ..self }
    }

    /// This state with the program counter at `ip`.
    pub open spec fn with_ip(self, ip: int) -> MachineState {
        MachineState { ip: ip as u16, ..self }
    }

    /// This state with `keys` in the keypad latch.
    pub open spec fn with_keys(self, keys: u16) -> MachineState {
        MachineState { keys, ..self }
    }

    /// This state with the program counter moved on past the instruction it
    /// stands at, and past the one after it as well if `skip` holds.
    pub open spec fn advanced(self, skip: bool) -> MachineState {
        self.with_ip(
            if skip {
                self.ip + 4
            } else {
                self.ip + 2
            },
        )
    }

    /// The word at the program counter, high byte first.
    pub open spec fn word(self) -> u16 {
        (self.memory[self.ip as int] * 0x100 + self.memory[self.ip + 1]) as u16
    }

    /// The instruction at the program counter.
    pub open spec fn fetch(self) -> Result<Instruction, MachineError> {
        if self.ip + 1 >= 0x1000 {
            Err(MachineError::AddressOutOfRange)
        } else {
            match decoding(self.word()) {
                Ok(instr) => Ok(instr),
                Err(e) => Err(MachineError::Decode(e)),
            }
        }
    }

    /// The `rows` bytes of memory from the address register on.
    pub open spec fn sprite(self, rows: u8) -> Seq<u8> {
        self.memory.subrange(self.reg_i as int, self.reg_i + rows)
    }

    /// The state after the instruction `instr`, taken to stand at the
    /// program counter, has run; or the reason why it cannot run, in which
    /// case the state stays as it is.
    ///
    /// `random` is the byte that the random source gave; only `RND` uses it.
    /// `collided` is what the display answered to the draw; only `DRW` uses
    /// it.
    pub open spec fn execute(self, instr: Instruction, random: u8, collided: bool) -> Result<
        MachineState,
        MachineError,
    > {
        if self.ip + 1 >= 0x1000 {
            Err(MachineError::AddressOutOfRange)
        } else {
            match instr {
                Instruction::CLS => Ok(self.advanced(false)),
                Instruction::RET => if self.stack.len() == 0 {
                    Err(MachineError::StackUnderflow)
                } else {
                    Ok(MachineState { ip: self.stack.last(), stack: self.stack.drop_last(), ..self })
                },
                Instruction::JP { a } => Ok(self.with_ip(a as int)),
                Instruction::CALL { a } => Ok(
                    MachineState { ip: a, stack: self.stack.push((self.ip + 2) as u16), ..self },
                ),
                Instruction::SEi { r, v } => Ok(self.advanced(self.reg(r) == v)),
                Instruction::SNEi { r, v } => Ok(self.advanced(self.reg(r) != v)),
                Instruction::SEr { r1, r2 } => Ok(self.advanced(self.reg(r1) == self.reg(r2))),
                Instruction::SNEr { r1, r2 } => Ok(self.advanced(self.reg(r1) != self.reg(r2))),
                Instruction::SETi { r, v } => Ok(self.with_reg(r, v).advanced(false)),
                Instruction::ADDi { r, v } => Ok(
                    self.with_reg(r, sum_low(self.reg(r), v)).advanced(false),
                ),
                Instruction::SETr { r1, r2 } => Ok(self.with_reg(r1, self.reg(r2)).advanced(false)),
                Instruction::OR { r1, r2 } => Ok(
                    self.with_reg(r1, self.reg(r1) | self.reg(r2)).advanced(false),
                ),
                Instruction::AND { r1, r2 } => Ok(
                    self.with_reg(r1, self.reg(r1) & self.reg(r2)).advanced(false),
                ),
                Instruction::XOR { r1, r2 } => Ok(
                    self.with_reg(r1, self.reg(r1) ^ self.reg(r2)).advanced(false),
                ),
                Instruction::ADD { r1, r2 } => Ok(
                    self.with_reg(r1, sum_low(self.reg(r1), self.reg(r2))).with_flag(
                        carry(self.reg(r1), self.reg(r2)),
                    ).advanced(false),
                ),
                Instruction::SUB { r1, r2 } => Ok(
                    self.with_reg(r1, difference_low(self.reg(r1), self.reg(r2))).with_flag(
                        borrow(self.reg(r1), self.reg(r2)),
                    ).advanced(false),
                ),
                Instruction::SUBN { r1, r2 } => Ok(
                    self.with_reg(r1, difference_low(self.reg(r2), self.reg(r1))).with_flag(
                        borrow(self.reg(r2), self.reg(r1)),
                    ).advanced(false),
                ),
                Instruction::SHR { r1, r2 } => Ok(
                    self.with_reg(r1, half(self.reg(r1))).with_flag(low_bit(self.reg(r1))).advanced(
                        false,
                    ),
                ),
                Instruction::SHL { r1, r2 } => Ok(
                    self.with_reg(r1, double_low(self.reg(r1))).with_flag(
                        high_bit(self.reg(r1)),
                    ).advanced(false),
                ),
                Instruction::LDI { a } => Ok(MachineState { reg_i: a, ..self }.advanced(false)),
                Instruction::JPR { a } => Ok(self.with_ip(a + self.reg(0))),
                Instruction::RND { r, v } => Ok(self.with_reg(r, random & v).advanced(false)),
                Instruction::DRW { r1, r2, v } => if self.reg_i + v > 0x1000 {
                    Err(MachineError::AddressOutOfRange)
                } else {
                    Ok(
                        self.with_flag(
                            if collided {
                                1
                            } else {
                                0
                            },
                        ).advanced(false),
                    )
                },
                Instruction::SKP { v } => Ok(self.advanced(self.keys == v)),
                Instruction::SKNP { v } => Ok(self.advanced(self.keys != v)),
                Instruction::LDT { r } => Ok(self.with_reg(r, self.delay).advanced(false)),
                Instruction::INP { r } => Ok(self.advanced(false)),
                Instruction::SDTr { r } => Ok(
                    MachineState { delay: self.reg(r), ..self }.advanced(false),
                ),
                Instruction::SSTr { r } => Ok(
                    MachineState { sound: self.reg(r), ..self }.advanced(false),
                ),
                Instruction::ADDI { r } => Ok(
                    MachineState {
                        reg_i: ((self.reg_i + self.reg(r)) % 0x10000) as u16,
                        ..self
                    }.advanced(false),
                ),
                Instruction::STOR { r } => if self.reg_i + r >= 0x1000 {
                    Err(MachineError::AddressOutOfRange)
                } else {
                    Ok(
                        MachineState {
                            memory: Seq::new(
                                0x1000,
                                |a: int|
                                    if self.reg_i <= a <= self.reg_i + r {
                                        self.registers[a - self.reg_i]
                                    } else {
                                        self.memory[a]
                                    },
                            ),
                            ..self
                        }.advanced(false),
                    )
                },
                Instruction::LOAD { r } => if self.reg_i + r >= 0x1000 {
                    Err(MachineError::AddressOutOfRange)
                } else {
                    Ok(
                        MachineState {
                            registers: Seq::new(
                                16,
                                |i: int|
                                    if i <= r {
                                        self.memory[self.reg_i + i]
                                    } else {
                                        self.registers[i]
                                    },
                            ),
                            ..self
                        }.advanced(false),
                    )
                },
            }
        }
    }

    /// The state after one step: the instruction at the program counter is
    /// fetched, decoded and run.
    pub open spec fn step(self, random: u8, collided: bool) -> Result<MachineState, MachineError> {
        match self.fetch() {
            Ok(instr) => self.execute(instr, random, collided),
            Err(e) => Err(e),
        }
    }
}

impl MachineState {
    /// Whether the instruction at the program counter sends something to
    /// the display.
    pub open spec fn talks_to_display(self) -> bool {
        self.fetch() matches Ok(instr) && (instr is CLS || instr is DRW)
    }

    /// Whether a step from this state may end with the result `res` in the
    /// state `after`, given that the random source gives `random` and the
    /// display answers `collided`. A step that fails leaves the state as it
    /// is. It may fail for want of the display only where the instruction
    /// needs the display and could run otherwise.
    pub open spec fn steps_with(
        self,
        random: u8,
        collided: bool,
        res: Result<(), MachineError>,
        after: MachineState,
    ) -> bool {
        match res {
            Ok(_) => self.step(random, collided) == Ok::<MachineState, MachineError>(after),
            Err(MachineError::ChannelDisconnected) => {
                &&& after == self
                &&& self.talks_to_display()
                &&& self.step(random, collided) is Ok
            },
            Err(e) => after == self && self.step(random, collided) == Err::<
                MachineState,
                MachineError,
            >(e),
        }
    }

    /// Whether a step from this state may end with the result `res` in the
    /// state `after`, whatever the random source and the display do.
    pub open spec fn steps_to(self, res: Result<(), MachineError>, after: MachineState) -> bool {
        exists|random: u8, collided: bool| #[trigger] self.steps_with(random, collided, res, after)
    }

    /// Whether a step from this state, begun by latching some keypad value
    /// or none, may end with the result `res` in the state `after`.
    pub open spec fn latches_and_steps_to(
        self,
        res: Result<(), MachineError>,
        after: MachineState,
    ) -> bool {
        exists|keys: u16| (#[trigger] self.with_keys(keys)).steps_to(res, after)
    }
}

/// Whether one step at `hz` steps a second is over once `elapsed_nanos`
/// nanoseconds have gone by since it began: whether that time has reached
/// the `hz`-th part of a second.
pub open spec fn interval_reached(hz: u32, elapsed_nanos: u64) -> bool {
    elapsed_nanos * hz >= 1_000_000_000
}

/// Tells the loop that runs the machine at `hz` steps a second whether the
/// next step is due, `elapsed_nanos` nanoseconds after the last one began.
/// Until it is, the loop waits.
pub fn step_is_due(hz: u32, elapsed_nanos: u64) -> (due: bool)
    ensures
        due == interval_reached(hz, elapsed_nanos),
{
    assert(elapsed_nanos * hz <= 0xFFFF_FFFF_FFFF_FFFF * 0xFFFF_FFFF) by (nonlinear_arith)
        requires
            elapsed_nanos <= 0xFFFF_FFFF_FFFF_FFFF,
            hz <= 0xFFFF_FFFF,
    ;
    elapsed_nanos as u128 * hz as u128 >= 1_000_000_000
}

/// The character that stands for a byte in a listing of memory: the byte's
/// own character where it is a printable ASCII one, a dot otherwise.
pub fn printable(value: u8) -> (ch: char)
    ensures
        ch == (if 0x20 <= value <= 0x7e {
            value as char
        } else {
            '.'
        }),
{
    if value < 0x20 || value > 0x7e {
        '.'
    } else {
        value as char
    }
}

/// Whether `instr` is one of the instructions that skip the next one where
/// a condition holds.
pub open spec fn is_skip(instr: Instruction) -> bool {
    instr is SEi || instr is SNEi || instr is SEr || instr is SNEr || instr is SKP || instr is SKNP
}

/// The condition under which the skip instruction `instr` skips in the
/// state `s`.
pub open spec fn skip_condition(s: MachineState, instr: Instruction) -> bool {
    match instr {
        Instruction::SEi { r, v } => s.reg(r) == v,
        Instruction::SNEi { r, v } => s.reg(r) != v,
        Instruction::SEr { r1, r2 } => s.reg(r1) == s.reg(r2),
        Instruction::SNEr { r1, r2 } => s.reg(r1) != s.reg(r2),
        Instruction::SKP { v } => s.keys == v,
        Instruction::SKNP { v } => s.keys != v,
        _ => false,
    }
}

/// A skip instruction moves the program counter on by exactly 4 where its
/// condition holds and by exactly 2 where it does not, and changes nothing
/// else.
pub proof fn lemma_skip_advances(s: MachineState, instr: Instruction, random: u8, collided: bool)
    requires
        is_skip(instr),
        s.ip + 1 < 0x1000,
    ensures
        ({
            &&& s.execute(instr, random, collided) matches Ok(t)
            &&& t.ip == s.ip + (if skip_condition(s, instr) {
                4int
            } else {
                2int
            })
            &&& t == (MachineState { ip: t.ip, ..s })
        }),
{
}

/// The sum, difference and shift instructions leave a byte in their target
/// register and 0 or 1 in the flag register, and never fail for the values
/// they work on: they wrap around.
pub proof fn lemma_arithmetic_wraps(s: MachineState, instr: Instruction, random: u8, collided: bool)
    requires
        s.wf(),
        instr.wf(),
        instr is ADD || instr is SUB || instr is SUBN || instr is SHL || instr is SHR,
        s.ip + 1 < 0x1000,
    ensures
        ({
            &&& s.execute(instr, random, collided) matches Ok(t)
            &&& t.wf()
            &&& t.reg(0xF) == 0 || t.reg(0xF) == 1
            &&& t.ip == s.ip + 2
        }),
{
}

/// A call followed at once by a return leaves the program counter at the
/// instruction after the call, and the call stack and all else as they
/// were.
pub proof fn lemma_call_then_return(s: MachineState, a: u16, random: u8, collided: bool)
    requires
        s.ip + 1 < 0x1000,
        a + 1 < 0x1000,
    ensures
        ({
            &&& s.execute(Instruction::CALL { a }, random, collided) matches Ok(called)
            &&& called.ip == a
            &&& called.execute(Instruction::RET, random, collided) matches Ok(back)
            &&& back.ip == s.ip + 2
            &&& back == (MachineState { ip: back.ip, ..s })
        }),
{
    let called = s.execute(Instruction::CALL { a }, random, collided)->Ok_0;
    assert(called.stack.drop_last() =~= s.stack);
}

/// Steps that send nothing to the display and draw no random byte have one
/// outcome only: what `steps_to` admits is what `step` gives.
pub proof fn lemma_quiet_step(s: MachineState, res: Result<(), MachineError>, after: MachineState)
    requires
        s.steps_to(res, after),
        !s.talks_to_display(),
        !(s.fetch() matches Ok(instr) && instr is RND),
    ensures
        match s.step(0, false) {
            Ok(t) => res is Ok && after == t,
            Err(e) => res == Err::<(), MachineError>(e) && after == s,
        },
{
    let (random, collided) = choose|random: u8, collided: bool| #[trigger]
        s.steps_with(random, collided, res, after);
    assert(s.step(random, collided) == s.step(0, false));
}

/// The machine. Its view is its state.
pub struct Machine {
    memory: [u8; 4096],
    registers: [u8; 16],
    reg_i: u16,
    timers: [u8; 2],
    ip: u16,
    stack: Vec<u16>,
    display: std::sync::mpsc::Sender<crate::screen::ScreenUpdate>,
    collision: std::sync::mpsc::Receiver<bool>,
    keypad: std::sync::mpsc::Receiver<u16>,
    keys: u16,
}

impl View for Machine {
    type V = MachineState;

    closed spec fn view(&self) -> MachineState {
        MachineState {
            memory: self.memory@,
            registers: self.registers@,
            reg_i: self.reg_i,
            delay: self.timers@[0],
            sound: self.timers@[1],
            ip: self.ip,
            stack: self.stack@,
            keys: self.keys,
        }
    }
}

impl Machine {
    /// The number of bytes of memory.
    pub const MEMORY_SIZE: usize = 0x1000;

    /// The number of general registers.
    pub const REGISTER_COUNT: usize = 16;

    /// The number of timers: the delay timer and the sound timer.
    pub const TIMER_COUNT: usize = 2;

    /// The address at which a program is loaded and starts.
    pub const LOAD_ADDR: usize = 0x200;

    /// The state of any machine has 4096 bytes of memory and 16 registers.
    pub proof fn lemma_view_wf(&self)
        ensures
            self@.wf(),
    {
    }

    /// A machine with nothing loaded, joined to the given channels.
    pub fn new(
        display: std::sync::mpsc::Sender<crate::screen::ScreenUpdate>,
        collision: std::sync::mpsc::Receiver<bool>,
        keypad: std::sync::mpsc::Receiver<u16>,
    ) -> (machine: Machine)
        ensures
            machine@ == MachineState::initial(),
    {
        let machine = Machine {
            memory: [0; 4096],
            registers: [0; 16],
            reg_i: 0,
            timers: [0; 2],
            ip: 0x200,
            stack: Vec::new(),
            keys: 0,
            display,
            collision,
            keypad,
        };
        assert(machine@ =~~= MachineState::initial());
        machine
    }

    /// A machine with the program `input` in memory from the load address
    /// on, joined to the given channels. A program that does not fit in the
    /// memory from there on is refused.
    pub fn load(
        input: &[u8],
        display: std::sync::mpsc::Sender<crate::screen::ScreenUpdate>,
        collision: std::sync::mpsc::Receiver<bool>,
        keypad: std::sync::mpsc::Receiver<u16>,
    ) -> (res: Result<Machine, LoadError>)
        ensures
            input@.len() > 0x1000 - 0x200 ==> res == Err::<Machine, LoadError>(
                LoadError::ProgramTooLarge,
            ),
            input@.len() <= 0x1000 - 0x200 ==> res is Ok && res->Ok_0@ == MachineState::loaded(
                input@,
            ),
    {
        if input.len() > 0x1000 - Machine::LOAD_ADDR {
            Err(LoadError::ProgramTooLarge)
        } else {
            let mut m = Machine::new(display, collision, keypad);
            for k in 0..input.len()
                invariant
                    input@.len() <= 0x1000 - 0x200,
                    m@ == (MachineState {
                        memory: Seq::new(
                            0x1000,
                            |a: int|
                                if 0x200 <= a < 0x200 + k {
                                    input@[a - 0x200]
                                } else {
                                    0u8
                                },
                        ),
                        ..MachineState::initial()
                    }),
            {
                m.memory[Machine::LOAD_ADDR + k] = input[k];
                assert(m@.memory =~= Seq::new(
                    0x1000,
                    |a: int|
                        if 0x200 <= a < 0x200 + k + 1 {
                            input@[a - 0x200]
                        } else {
                            0u8
                        },
                ));
            }
            Ok(m)
        }
    }

    /// The program counter.
    pub fn ip(&self) -> (ip: u16)
        ensures
            ip == self@.ip,
    {
        self.ip
    }

    /// The address register.
    pub fn index(&self) -> (i: u16)
        ensures
            i == self@.reg_i,
    {
        self.reg_i
    }

    /// The keypad latch.
    pub fn keys(&self) -> (keys: u16)
        ensures
            keys == self@.keys,
    {
        self.keys
    }

    /// The delay timer.
    pub fn delay_timer(&self) -> (t: u8)
        ensures
            t == self@.delay,
    {
        self.timers[0]
    }

    /// The sound timer.
    pub fn sound_timer(&self) -> (t: u8)
        ensures
            t == self@.sound,
    {
        self.timers[1]
    }

    /// The return addresses on the call stack, the latest last.
    pub fn stack(&self) -> (stack: &Vec<u16>)
        ensures
            stack@ == self@.stack,
    {
        &self.stack
    }

    /// The value of register `r`.
    pub fn reg(&self, r: u8) -> (v: u8)
        requires
            r < 16,
        ensures
            v == self@.reg(r),
    {
        self.registers[r as usize]
    }

    /// Puts `v` in register `r`.
    pub fn reg_set(&mut self, r: u8, v: u8)
        requires
            r < 16,
        ensures
            final(self)@ == old(self)@.with_reg(r, v),
    {
        self.registers[r as usize] = v;
    }

    /// The byte of memory at address `a`.
    pub fn mem(&self, a: u16) -> (v: u8)
        requires
            a < 0x1000,
        ensures
            v == self@.memory[a as int],
    {
        self.memory[a as usize]
    }

    /// Puts `v` in memory at address `a`.
    pub fn mem_set(&mut self, a: u16, v: u8)
        requires
            a < 0x1000,
        ensures
            final(self)@ == old(self)@.with_mem(a, v),
    {
        self.memory[a as usize] = v;
    }

    /// Fetches and decodes the instruction at the program counter.
    pub fn fetch(&self) -> (res: Result<Instruction, MachineError>)
        ensures
            res == self@.fetch(),
            res matches Ok(instr) ==> instr.wf(),
    {
        if self.ip >= 0xFFF {
            return Err(MachineError::AddressOutOfRange);
        }
        let hi = self.memory[self.ip as usize];
        let lo = self.memory[(self.ip + 1) as usize];
        let word: u16 = (hi as u16) * 0x100 + (lo as u16);
        match Instruction::decode(word) {
            Ok(instr) => Ok(instr),
            Err(e) => Err(MachineError::Decode(e)),
        }
    }

    /// The draw that `DRW` asks of the display for a sprite of `rows` rows
    /// at the place that registers `r1` and `r2` give: the sprite is the
    /// memory from the address register on.
    pub fn sprite_update(&self, r1: u8, r2: u8, rows: u8) -> (res: Result<
        crate::screen::ScreenUpdate,
        MachineError,
    >)
        requires
            r1 < 16,
            r2 < 16,
        ensures
            self@.reg_i + rows > 0x1000 ==> res == Err::<crate::screen::ScreenUpdate, MachineError>(
                MachineError::AddressOutOfRange,
            ),
            self@.reg_i + rows <= 0x1000 ==> (res matches Ok(
                crate::screen::ScreenUpdate::Draw { bytes, coords },
            ) && bytes@ == self@.sprite(rows) && coords.0 == self@.reg(r1) && coords.1
                == self@.reg(r2)),
    {
        if self.reg_i as usize + rows as usize > Machine::MEMORY_SIZE {
            return Err(MachineError::AddressOutOfRange);
        }
        let start = self.reg_i as usize;
        let mut bytes: Vec<u8> = Vec::new();
        for k in 0..rows as usize
            invariant
                start == self.reg_i,
                start + rows <= 0x1000,
                bytes@ == self.memory@.subrange(start as int, start + k),
        {
            bytes.push(self.memory[start + k]);
            assert(bytes@ =~= self.memory@.subrange(start as int, start + k + 1));
        }
        let coords = (self.reg(r1) as usize, self.reg(r2) as usize);
        Ok(crate::screen::ScreenUpdate::Draw { bytes, coords })
    }

    /// Puts the latest of the keypad values in `pending`, which come in the
    /// order they were sent, in the keypad latch. With none pending the
    /// latch stays as it is.
    pub fn latch_keys(&mut self, pending: &Vec<u16>)
        ensures
            final(self)@ == old(self)@.with_keys(
                if pending@.len() == 0 {
                    old(self)@.keys
                } else {
                    pending@.last()
                },
            ),
    {
        if pending.len() > 0 {
            self.keys = pending[pending.len() - 1];
        }
    }

    /// Runs `instr` as the instruction at the program counter. `random` is
    /// the byte to use for `RND`, `collided` the answer of the display to
    /// use for `DRW`. When the instruction cannot run the machine stays as
    /// it is.
    pub fn execute(&mut self, instr: Instruction, random: u8, collided: bool) -> (res: Result<
        (),
        MachineError,
    >)
        requires
            instr.wf(),
        ensures
            res is Ok ==> old(self)@.execute(instr, random, collided) == Ok::<
                MachineState,
                MachineError,
            >(final(self)@),
            res matches Err(e) ==> old(self)@.execute(instr, random, collided) == Err::<
                MachineState,
                MachineError,
            >(e) && final(self)@ == old(self)@,
    {
        if self.ip >= 0xFFF {
            return Err(MachineError::AddressOutOfRange);
        }
        let next_instr: u16 = self.ip + 2;
        let ip: u16 = match instr {
            Instruction::CLS => next_instr,
            Instruction::RET => match self.stack.pop() {
                Some(a) => a,
                None => {
                    return Err(MachineError::StackUnderflow);
                },
            },
            Instruction::JP { a } => a,
            Instruction::CALL { a } => {
                self.stack.push(next_instr);
                a
            },
            Instruction::SEi { r, v } => {
                if self.reg(r) == v {
                    self.ip + 4
                } else {
                    next_instr
                }
            },
            Instruction::SNEi { r, v } => {
                if self.reg(r) != v {
                    self.ip + 4
                } else {
                    next_instr
                }
            },
            Instruction::SEr { r1, r2 } => {
                if self.reg(r1) == self.reg(r2) {
                    self.ip + 4
                } else {
                    next_instr
                }
            },
            Instruction::SETi { r, v } => {
                self.reg_set(r, v);
                next_instr
            },
            Instruction::ADDi { r, v } => {
                let (result, _) = add_carry(self.reg(r), v);
                self.reg_set(r, result);
                next_instr
            },
            Instruction::SETr { r1, r2 } => {
                let v = self.reg(r2);
                self.reg_set(r1, v);
                next_instr
            },
            Instruction::OR { r1, r2 } => {
                let v = self.reg(r1) | self.reg(r2);
                self.reg_set(r1, v);
                next_instr
            },
            Instruction::AND { r1, r2 } => {
                let v = self.reg(r1) & self.reg(r2);
                self.reg_set(r1, v);
                next_instr
            },
            Instruction::XOR { r1, r2 } => {
                let v = self.reg(r1) ^ self.reg(r2);
                self.reg_set(r1, v);
                next_instr
            },
            Instruction::ADD { r1, r2 } => {
                let (v, carry) = add_carry(self.reg(r1), self.reg(r2));
                self.reg_set(r1, v);
                self.reg_set(0xf, carry);
                next_instr
            },
            Instruction::SUB { r1, r2 } => {
                let (v, carry) = sub_borrow(self.reg(r1), self.reg(r2));
                self.reg_set(r1, v);
                self.reg_set(0xf, carry);
                next_instr
            },
            Instruction::SHR { r1, .. } => {
                let (v, carry) = shift_right(self.reg(r1));
                self.reg_set(r1, v);
                self.reg_set(0xf, carry);
                next_instr
            },
            Instruction::SUBN { r1, r2 } => {
                let (v, carry) = sub_borrow(self.reg(r2), self.reg(r1));
                self.reg_set(r1, v);
                self.reg_set(0xf, carry);
                next_instr
            },
            Instruction::SHL { r1, .. } => {
                let (v, carry) = shift_left(self.reg(r1));
                self.reg_set(r1, v);
                self.reg_set(0xf, carry);
                next_instr
            },
            Instruction::SNEr { r1, r2 } => {
                if self.reg(r1) != self.reg(r2) {
                    self.ip + 4
                } else {
                    next_instr
                }
            },
            Instruction::LDI { a } => {
                self.reg_i = a;
                next_instr
            },
            Instruction::JPR { a } => a + self.reg(0) as u16,
            Instruction::RND { r, v } => {
                self.reg_set(r, random & v);
                next_instr
            },
            Instruction::DRW { r1, r2, v } => {
                if self.reg_i as usize + v as usize > Machine::MEMORY_SIZE {
                    return Err(MachineError::AddressOutOfRange);
                }
                self.reg_set(
                    0xf,
                    if collided {
                        1
                    } else {
                        0
                    },
                );
                next_instr
            },
            Instruction::SKP { v } => {
                if self.keys == v as u16 {
                    next_instr + 2
                } else {
                    next_instr
                }
            },
            Instruction::SKNP { v } => {
                if self.keys != v as u16 {
                    next_instr + 2
                } else {
                    next_instr
                }
            },
            Instruction::LDT { r } => {
                let t = self.timers[0];
                self.reg_set(r, t);
                next_instr
            },
            Instruction::INP { r } => next_instr,
            Instruction::SDTr { r } => {
                self.timers[0] = self.reg(r);
                next_instr
            },
            Instruction::SSTr { r } => {
                self.timers[1] = self.reg(r);
                next_instr
            },
            Instruction::ADDI { r } => {
                let sum: u32 = self.reg_i as u32 + self.reg(r) as u32;
                self.reg_i = (sum % 0x10000) as u16;
                next_instr
            },
            Instruction::STOR { r } => {
                if self.reg_i as usize + r as usize >= Machine::MEMORY_SIZE {
                    return Err(MachineError::AddressOutOfRange);
                }
                let ghost before = self@;
                for i in 0..r + 1
                    invariant
                        r < 16,
                        before.reg_i + r < 0x1000,
                        self@ == (MachineState {
                            memory: Seq::new(
                                0x1000,
                                |a: int|
                                    if before.reg_i <= a < before.reg_i + i {
                                        before.registers[a - before.reg_i]
                                    } else {
                                        before.memory[a]
                                    },
                            ),
                            ..before
                        }),
                {
                    let v = self.reg(i);
                    self.mem_set(self.reg_i + i as u16, v);
                    assert(self@.memory =~= Seq::new(
                        0x1000,
                        |a: int|
                            if before.reg_i <= a < before.reg_i + i + 1 {
                                before.registers[a - before.reg_i]
                            } else {
                                before.memory[a]
                            },
                    ));
                }
                assert(self@.memory =~= Seq::new(
                    0x1000,
                    |a: int|
                        if before.reg_i <= a <= before.reg_i + r {
                            before.registers[a - before.reg_i]
                        } else {
                            before.memory[a]
                        },
                ));
                next_instr
            },
            Instruction::LOAD { r } => {
                if self.reg_i as usize + r as usize >= Machine::MEMORY_SIZE {
                    return Err(MachineError::AddressOutOfRange);
                }
                let ghost before = self@;
                for i in 0..r + 1
                    invariant
                        r < 16,
                        before.reg_i + r < 0x1000,
                        self@ == (MachineState {
                            registers: Seq::new(
                                16,
                                |j: int|
                                    if j < i {
                                        before.memory[before.reg_i + j]
                                    } else {
                                        before.registers[j]
                                    },
                            ),
                            ..before
                        }),
                {
                    let v = self.mem(self.reg_i + i as u16);
                    self.reg_set(i, v);
                    assert(self@.registers =~= Seq::new(
                        16,
                        |j: int|
                            if j < i + 1 {
                                before.memory[before.reg_i + j]
                            } else {
                                before.registers[j]
                            },
                    ));
                }
                assert(self@.registers =~= Seq::new(
                    16,
                    |j: int|
                        if j <= r {
                            before.memory[before.reg_i + j]
                        } else {
                            before.registers[j]
                        },
                ));
                next_instr
            },
        };
        self.ip = ip;
        Ok(())
    }

    /// Runs the instruction at the program counter. A clear or a draw is
    /// sent to the display, and a draw waits for the display's answer. When
    /// the step cannot be made the machine stays as it is.
    fn eval_next(&mut self) -> (res: Result<(), MachineError>)
        ensures
            old(self)@.steps_to(res, final(self)@),
    {
        let instr = match self.fetch() {
            Ok(instr) => instr,
            Err(e) => {
                assert(self@.steps_with(0, false, Err(e), self@));
                return Err(e);
            },
        };
        let mut random: u8 = 0;
        let mut collided = false;
        match instr {
            Instruction::CLS => {
                if !send_update(&self.display, crate::screen::ScreenUpdate::Clear) {
                    assert(self@.steps_with(
                        0,
                        false,
                        Err(MachineError::ChannelDisconnected),
                        self@,
                    ));
                    return Err(MachineError::ChannelDisconnected);
                }
            },
            Instruction::RND { .. } => {
                random = random_byte();
            },
            Instruction::DRW { r1, r2, v } => {
                let update = match self.sprite_update(r1, r2, v) {
                    Ok(update) => update,
                    Err(e) => {
                        assert(self@.steps_with(0, false, Err(e), self@));
                        return Err(e);
                    },
                };
                if !send_update(&self.display, update) {
                    assert(self@.steps_with(
                        0,
                        false,
                        Err(MachineError::ChannelDisconnected),
                        self@,
                    ));
                    return Err(MachineError::ChannelDisconnected);
                }
                match await_collision(&self.collision) {
                    Some(reply) => {
                        collided = reply;
                    },
                    None => {
                        assert(self@.steps_with(
                            0,
                            false,
                            Err(MachineError::ChannelDisconnected),
                            self@,
                        ));
                        return Err(MachineError::ChannelDisconnected);
                    },
                }
            },
            _ => {},
        }
        let res = self.execute(instr, random, collided);
        assert(old(self)@.steps_with(random, collided, res, self@));
        res
    }

    /// Makes one step: latches the latest keypad value that waits on the
    /// keypad channel, if any, then runs the instruction at the program
    /// counter.
    pub fn step(&mut self) -> (res: Result<(), MachineError>)
        ensures
            old(self)@.latches_and_steps_to(res, final(self)@),
    {
        let pending = pending_keys(&self.keypad);
        self.latch_keys(&pending);
        let ghost latched = self@;
        let res = self.eval_next();
        assert(latched == old(self)@.with_keys(latched.keys));
        res
    }

    /// Counts both timers down by one; a timer at zero stays there.
    pub fn decrement_timers(&mut self)
        ensures
            final(self)@ == (MachineState {
                delay: if old(self)@.delay == 0 {
                    0u8
                } else {
                    (old(self)@.delay - 1) as u8
                },
                sound: if old(self)@.sound == 0 {
                    0u8
                } else {
                    (old(self)@.sound - 1) as u8
                },
                ..old(self)@
            }),
    {
        self.timers[0] = self.timers[0].saturating_sub(1);
        self.timers[1] = self.timers[1].saturating_sub(1);
    }
}

} // verus!
