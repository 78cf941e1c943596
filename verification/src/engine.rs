//! The session that sits between the debugger and the CPU emulator.
//!
//! The emulator itself belongs to the driver. The engine keeps what the
//! session has to remember (its state, the installed traps, the loaded
//! program) and decides what happens next: every operation answers with a
//! request that the driver carries out on the emulator, and the hooks that the
//! emulator calls hand their registers in as plain values.

use crate::program::Program;
use crate::psp::PSP_SIZE;
use std::collections::HashMap;
use vstd::prelude::*;

verus! {

/// Size in bytes of the emulated address space, which starts at address zero.
pub const MEMORY_SIZE: u64 = 0x80_0000;

/// The one-byte instruction that is written over code to trap execution.
pub const TRAP_OPCODE: u8 = 0xCC;

/// The address at which a run stops by itself.
pub const RUN_UNTIL: u64 = 8192;

/// The number of the `write` system call.
pub const SYSCALL_WRITE: u64 = 1;

/// The number of the `exit` system call.
pub const SYSCALL_EXIT: u64 = 60;

/// The descriptor of standard output.
pub const STDOUT: u64 = 1;

/// The descriptor of standard error.
pub const STDERR: u64 = 2;

/// Where a debug session stands.
#[derive(Debug, Clone, Copy, PartialEq, Eq)]
pub enum SessionState {
    /// Nothing has been executed yet.
    NotStarted,
    /// The emulator is executing.
    Running,
    /// Execution is suspended at this address.
    Stopped(u64),
    /// The program has made its `exit` call.
    Exited,
}

/// A condition that ends emulation for good.
#[derive(Debug, Clone, Copy, PartialEq, Eq)]
pub enum RuntimeError {
    /// The program made a system call other than `write` and `exit`.
    UnsupportedSyscall(u64),
    /// The program wrote to a descriptor other than 1 and 2.
    UnsupportedFileDescriptor(u64),
    /// A trap fired where no breakpoint stands; `pc` is the program counter
    /// that the emulator reported.
    UnexpectedTrap { pc: u64 },
}

/// A host stream that the program can write to.
#[derive(Debug, Clone, Copy, PartialEq, Eq)]
pub enum OutputStream {
    Stdout,
    Stderr,
}

/// One byte to write into emulated memory, and the address range whose
/// decoded instructions must then be dropped so that the emulator reads the
/// new byte.
#[derive(Debug, Clone, Copy, PartialEq, Eq)]
pub struct Patch {
    pub address: u64,
    pub byte: u8,
    /// First address of the range to invalidate.
    pub cache_begin: u64,
    /// First address behind the range to invalidate.
    pub cache_end: u64,
}

/// What the driver does with the emulator to execute instructions.
#[derive(Debug, Clone, Copy, PartialEq, Eq)]
pub enum RunRequest {
    /// Execute from `begin` until the program counter is `until`, a hook
    /// stops the emulator, or `count` instructions are done; a `count` of zero
    /// sets no limit.
    Emulate { begin: u64, until: u64, count: u64 },
    /// Nothing: the program has exited.
    Exited,
}

/// What the driver does when the program makes a system call.
#[derive(Debug, Clone, Copy, PartialEq, Eq)]
pub enum SyscallOutcome {
    /// Copy `length` bytes of emulated memory at `address` to `stream` and
    /// let the program go on.
    Write { stream: OutputStream, address: u64, length: u64 },
    /// Stop the emulator: the program has exited.
    Exit,
    /// Stop the emulator and report the error.
    Halt(RuntimeError),
}

/// What the driver does when a trap fires.
#[derive(Debug, Clone, Copy, PartialEq, Eq)]
pub enum TrapOutcome {
    /// A breakpoint was hit: apply the patch, which puts the original byte
    /// back, set the program counter to the patch's address and stop the
    /// emulator.
    Restore(Patch),
    /// Stop the emulator and report the error.
    Halt(RuntimeError),
}

/// Where the driver maps memory and writes the image.
#[derive(Debug, Clone, Copy, PartialEq, Eq)]
pub struct MemoryPlan {
    /// First mapped address.
    pub base: u64,
    /// Number of mapped bytes.
    pub size: u64,
    /// Where the program segment prefix goes: right in front of the image,
    /// if there is room for it.
    pub psp_address: Option<u64>,
    /// Where the first byte of the image goes.
    pub image_address: u64,
    /// Number of bytes of the image.
    pub image_len: usize,
    /// Whether the whole image lies inside the mapped range.
    pub image_fits: bool,
}

/// The patch that changes the byte at `address` to `byte`.
pub open spec fn patch_at(address: u64, byte: u8) -> Patch {
    Patch { address, byte, cache_begin: 0, cache_end: MEMORY_SIZE }
}

/// A debug session as the contracts see it.
pub struct Session {
    pub state: SessionState,
    /// Whether execution is traced.
    pub verbose: bool,
    /// The installed traps: each trapped address with the byte that the trap
    /// opcode replaced.
    pub traps: Map<u64, u8>,
    /// The address where the program starts.
    pub entry: u64,
}

impl Session {
    /// The session of a program that starts at `entry`, before anything ran.
    pub open spec fn initial(entry: u64) -> Session {
        Session { state: SessionState::NotStarted, verbose: false, traps: Map::empty(), entry }
    }

    /// Whether the program has made its `exit` call.
    pub open spec fn exited(self) -> bool {
        self.state == SessionState::Exited
    }

    /// Where execution goes on: at the stop, or at the entry if there was none.
    pub open spec fn resume_address(self) -> u64 {
        match self.state {
            SessionState::Stopped(address) => address,
            _ => self.entry,
        }
    }

    /// The session in state `state`.
    pub open spec fn with_state(self, state: SessionState) -> Session {
        Session { state, ..self }
    }

    /// A request to execute from `begin`, and the session while it is served.
    /// After the exit nothing is executed and nothing changes.
    pub open spec fn execute(self, begin: u64, count: u64) -> (Session, RunRequest) {
        if self.exited() {
            (self, RunRequest::Exited)
        } else {
            (
                self.with_state(SessionState::Running),
                RunRequest::Emulate { begin, until: RUN_UNTIL, count },
            )
        }
    }

    /// Runs the program from its entry.
    pub open spec fn start(self) -> (Session, RunRequest) {
        self.execute(self.entry, 0)
    }

    /// Resumes the program where it stopped.
    pub open spec fn cont(self) -> (Session, RunRequest) {
        self.execute(self.resume_address(), 0)
    }

    /// Executes one instruction where the program stopped.
    pub open spec fn step(self) -> (Session, RunRequest) {
        self.execute(self.resume_address(), 1)
    }

    /// The session after the emulator has returned with program counter `pc`:
    /// a run that no hook has ended is suspended there.
    pub open spec fn finish_run(self, pc: u64) -> Session {
        if self.state == SessionState::Running {
            self.with_state(SessionState::Stopped(pc))
        } else {
            self
        }
    }

    /// Sets tracing.
    pub open spec fn set_verbose(self, verbose: bool) -> Session {
        Session { verbose, ..self }
    }

    /// Installs a trap at `address`, where memory now holds `current`.
    /// Where a trap stands already, nothing changes and nothing is written.
    pub open spec fn add_break(self, address: u64, current: u8) -> (Session, Option<Patch>) {
        if self.traps.contains_key(address) {
            (self, None)
        } else {
            (
                Session { traps: self.traps.insert(address, current), ..self },
                Some(patch_at(address, TRAP_OPCODE)),
            )
        }
    }

    /// Clears the trap at `address`: the byte that the trap opcode replaced
    /// goes back. Where no trap stands, nothing changes and nothing is written.
    pub open spec fn remove_break(self, address: u64) -> (Session, Option<Patch>) {
        if self.traps.contains_key(address) {
            (
                Session { traps: self.traps.remove(address), ..self },
                Some(patch_at(address, self.traps[address])),
            )
        } else {
            (self, None)
        }
    }

    /// Handles the system call `number` with its three arguments.
    pub open spec fn on_syscall(self, number: u64, descriptor: u64, buffer: u64, length: u64) -> (
        Session,
        SyscallOutcome,
    ) {
        if number == SYSCALL_WRITE {
            if descriptor == STDOUT {
                (
                    self,
                    SyscallOutcome::Write { stream: OutputStream::Stdout, address: buffer, length },
                )
            } else if descriptor == STDERR {
                (
                    self,
                    SyscallOutcome::Write { stream: OutputStream::Stderr, address: buffer, length },
                )
            } else {
                (self, SyscallOutcome::Halt(RuntimeError::UnsupportedFileDescriptor(descriptor)))
            }
        } else if number == SYSCALL_EXIT {
            (self.with_state(SessionState::Exited), SyscallOutcome::Exit)
        } else {
            (self, SyscallOutcome::Halt(RuntimeError::UnsupportedSyscall(number)))
        }
    }

    /// Whether a trap reported at `pc`, with `byte` in memory just before
    /// `pc`, is a breakpoint of this session: the byte is the trap opcode and
    /// a trap is installed at its address.
    pub open spec fn is_breakpoint_hit(self, pc: u64, byte: u8) -> bool {
        pc > 0 && byte == TRAP_OPCODE && self.traps.contains_key((pc - 1) as u64)
    }

    /// Handles a trap reported at `pc`, with `byte` in memory just before `pc`.
    ///
    /// A breakpoint that was hit is removed, its original byte goes back
    /// and the session is suspended at the trapped address, unless the program
    /// has exited. Any other trap changes nothing.
    pub open spec fn on_trap(self, pc: u64, byte: u8) -> (Session, TrapOutcome) {
        if self.is_breakpoint_hit(pc, byte) {
            let address = (pc - 1) as u64;
            (
                Session {
                    state: if self.exited() {
                        SessionState::Exited
                    } else {
                        SessionState::Stopped(address)
                    },
                    traps: self.traps.remove(address),
                    ..self
                },
                TrapOutcome::Restore(patch_at(address, self.traps[address])),
            )
        } else {
            (self, TrapOutcome::Halt(RuntimeError::UnexpectedTrap { pc }))
        }
    }
}

/// Emulated memory after `patch` has been written.
pub open spec fn patched(memory: Seq<u8>, patch: Patch) -> Seq<u8> {
    if patch.address < memory.len() {
        memory.update(patch.address as int, patch.byte)
    } else {
        memory
    }
}

/// Whether the range that `patch` invalidates holds the byte it writes.
pub open spec fn invalidates_own_byte(patch: Patch) -> bool {
    patch.cache_begin <= patch.address < patch.cache_end
}

/// A breakpoint that is installed where none stood, and hit at once, leaves
/// no trace: the trap opcode stands at the address while the breakpoint is
/// armed and nowhere else, the hit puts the original byte back so that memory
/// is what it was, the trap is gone from the session, both writes invalidate
/// the decode cache over the byte they change, and the session is suspended at
/// the address (after the exit it stays exited).
pub proof fn lemma_breakpoint_round_trip(session: Session, memory: Seq<u8>, address: u64)
    requires
        memory.len() == MEMORY_SIZE,
        address < MEMORY_SIZE,
        !session.traps.contains_key(address),
    ensures
        ({
            let (armed, install) = session.add_break(address, memory[address as int]);
            let trapped = patched(memory, install->0);
            let (after, outcome) = armed.on_trap((address + 1) as u64, trapped[address as int]);
            &&& install == Some(patch_at(address, TRAP_OPCODE))
            &&& trapped == memory.update(address as int, TRAP_OPCODE)
            &&& outcome == TrapOutcome::Restore(patch_at(address, memory[address as int]))
            &&& patched(trapped, outcome->Restore_0) == memory
            &&& invalidates_own_byte(install->0)
            &&& invalidates_own_byte(outcome->Restore_0)
            &&& after.traps == session.traps
            &&& after == if session.exited() {
                session
            } else {
                session.with_state(SessionState::Stopped(address))
            }
        }),
{
    let (armed, install) = session.add_break(address, memory[address as int]);
    let trapped = patched(memory, install->0);
    let (after, outcome) = armed.on_trap((address + 1) as u64, trapped[address as int]);
    assert(armed.traps.remove(address) =~= session.traps);
    assert(patched(trapped, outcome->Restore_0) =~= memory);
}

/// A breakpoint that is installed where none stood, and cleared before it is
/// hit, leaves no trace either: memory and session are what they were.
pub proof fn lemma_cleared_breakpoint_leaves_no_trace(
    session: Session,
    memory: Seq<u8>,
    address: u64,
)
    requires
        memory.len() == MEMORY_SIZE,
        address < MEMORY_SIZE,
        !session.traps.contains_key(address),
    ensures
        ({
            let (armed, install) = session.add_break(address, memory[address as int]);
            let (after, restore) = armed.remove_break(address);
            &&& restore == Some(patch_at(address, memory[address as int]))
            &&& patched(patched(memory, install->0), restore->0) == memory
            &&& invalidates_own_byte(restore->0)
            &&& after == session
        }),
{
    let (armed, install) = session.add_break(address, memory[address as int]);
    let (after, restore) = armed.remove_break(address);
    assert(armed.traps.remove(address) =~= session.traps);
    assert(patched(patched(memory, install->0), restore->0) =~= memory);
}

/// The `exit` system call ends the session, whatever its arguments and
/// wherever the session stood: from then on a request to run, to continue or
/// to step executes nothing and leaves the session as it is.
pub proof fn lemma_exit_ends_session(session: Session, descriptor: u64, buffer: u64, length: u64)
    ensures
        ({
            let (after, outcome) = session.on_syscall(SYSCALL_EXIT, descriptor, buffer, length);
            &&& outcome == SyscallOutcome::Exit
            &&& after == session.with_state(SessionState::Exited)
            &&& after.start() == (after, RunRequest::Exited)
            &&& after.cont() == (after, RunRequest::Exited)
            &&& after.step() == (after, RunRequest::Exited)
        }),
{
}

/// A session that has exited stays exited through every operation and hook.
pub proof fn lemma_exited_is_final(
    session: Session,
    pc: u64,
    byte: u8,
    address: u64,
    verbose: bool,
    number: u64,
    descriptor: u64,
    buffer: u64,
    length: u64,
)
    requires
        session.exited(),
    ensures
        session.start().0 == session,
        session.cont().0 == session,
        session.step().0 == session,
        session.finish_run(pc) == session,
        session.set_verbose(verbose).exited(),
        session.add_break(address, byte).0.exited(),
        session.remove_break(address).0.exited(),
        session.on_syscall(number, descriptor, buffer, length).0 == session,
        session.on_trap(pc, byte).0.exited(),
{
}

/// The exclusive owner of a debug session and of the program it runs.
pub struct Engine {
    program: Program,
    state: SessionState,
    verbose: bool,
    breakpoints: HashMap<u64, u8>,
}

impl View for Engine {
    type V = Session;

    closed spec fn view(&self) -> Session {
        Session {
            state: self.state,
            verbose: self.verbose,
            traps: self.breakpoints@,
            entry: self.program.entry(),
        }
    }
}

impl Engine {
    /// The program that the engine was made for.
    pub closed spec fn loaded(&self) -> Program {
        self.program
    }

    /// The memory plan for `program`.
    pub open spec fn plan_for(program: Program) -> MemoryPlan {
        MemoryPlan {
            base: 0,
            size: MEMORY_SIZE,
            psp_address: if program.entry() >= PSP_SIZE {
                Some((program.entry() - PSP_SIZE) as u64)
            } else {
                None
            },
            image_address: program.entry(),
            image_len: program.image().len() as usize,
            image_fits: program.entry() + program.image().len() <= MEMORY_SIZE,
        }
    }

    /// Takes over `program`. Nothing has run, nothing is trapped, and
    /// execution is not traced.
    pub fn new(program: Program) -> (engine: Engine)
        ensures
            engine@ == Session::initial(program.entry()),
            engine.loaded() == program,
    {
        Engine {
            program,
            state: SessionState::NotStarted,
            verbose: false,
            breakpoints: HashMap::new(),
        }
    }

    /// The program that the engine was made for.
    pub fn program(&self) -> (program: &Program)
        ensures
            *program == self.loaded(),
            program.entry() == self@.entry,
    {
        &self.program
    }

    /// Where to map memory and what to write where: all of memory is mapped
    /// from address zero, the image goes to the entry address, and the
    /// program segment prefix ends where the image begins.
    pub fn memory_plan(&self) -> (plan: MemoryPlan)
        ensures
            plan == Engine::plan_for(self.loaded()),
    {
        let image_address = self.program.start();
        let image_len = self.program.data().len();
        MemoryPlan {
            base: 0,
            size: MEMORY_SIZE,
            psp_address: if image_address >= PSP_SIZE as u64 {
                Some(image_address - PSP_SIZE as u64)
            } else {
                None
            },
            image_address,
            image_len,
            image_fits: image_address <= MEMORY_SIZE && image_len as u64 <= MEMORY_SIZE
                - image_address,
        }
    }

    /// Where the session stands.
    pub fn state(&self) -> (state: SessionState)
        ensures
            state == self@.state,
    {
        self.state
    }

    /// Whether a run has reached the `exit` system call.
    pub fn exited(&self) -> (exited: bool)
        ensures
            exited == self@.exited(),
    {
        match self.state {
            SessionState::Exited => true,
            _ => false,
        }
    }

    /// Whether execution is traced.
    pub fn verbose(&self) -> (verbose: bool)
        ensures
            verbose == self@.verbose,
    {
        self.verbose
    }

    /// Turns tracing on or off.
    pub fn set_verbose(&mut self, verbose: bool)
        ensures
            final(self)@ == old(self)@.set_verbose(verbose),
            final(self).loaded() == old(self).loaded(),
    {
        self.verbose = verbose;
    }

    /// Whether a trap is installed at `address`.
    pub fn has_break(&self, address: u64) -> (installed: bool)
        ensures
            installed == self@.traps.contains_key(address),
    {
        self.breakpoints.contains_key(&address)
    }

    fn resume_address(&self) -> (address: u64)
        ensures
            address == self@.resume_address(),
    {
        match self.state {
            SessionState::Stopped(address) => address,
            _ => self.program.start(),
        }
    }

    fn execute(&mut self, begin: u64, count: u64) -> (request: RunRequest)
        ensures
            final(self)@ == old(self)@.execute(begin, count).0,
            request == old(self)@.execute(begin, count).1,
            final(self).loaded() == old(self).loaded(),
    {
        if self.exited() {
            RunRequest::Exited
        } else {
            self.state = SessionState::Running;
            RunRequest::Emulate { begin, until: RUN_UNTIL, count }
        }
    }

    /// Runs the program from its entry. After the exit this is a no-op that
    /// reports the exit.
    pub fn start(&mut self) -> (request: RunRequest)
        ensures
            final(self)@ == old(self)@.start().0,
            request == old(self)@.start().1,
            final(self).loaded() == old(self).loaded(),
    {
        let begin = self.program.start();
        self.execute(begin, 0)
    }

    /// Resumes the program where it stopped. After the exit this is a no-op
    /// that reports the exit.
    pub fn cont(&mut self) -> (request: RunRequest)
        ensures
            final(self)@ == old(self)@.cont().0,
            request == old(self)@.cont().1,
            final(self).loaded() == old(self).loaded(),
    {
        let begin = self.resume_address();
        self.execute(begin, 0)
    }

    /// Executes one instruction where the program stopped. After the exit
    /// this is a no-op that reports the exit.
    pub fn step(&mut self) -> (request: RunRequest)
        ensures
            final(self)@ == old(self)@.step().0,
            request == old(self)@.step().1,
            final(self).loaded() == old(self).loaded(),
    {
        let begin = self.resume_address();
        self.execute(begin, 1)
    }

    /// Records that the emulator has returned with program counter `pc`.
    pub fn finish_run(&mut self, pc: u64)
        ensures
            final(self)@ == old(self)@.finish_run(pc),
            final(self).loaded() == old(self).loaded(),
    {
        match self.state {
            SessionState::Running => {
                self.state = SessionState::Stopped(pc);
            },
            _ => {},
        }
    }

    /// Installs a trap at `address`, where emulated memory holds `current`.
    ///
    /// Gives the patch that puts the trap opcode there. Where a trap stands
    /// already there is nothing to write.
    pub fn add_break(&mut self, address: u64, current: u8) -> (patch: Option<Patch>)
        ensures
            final(self)@ == old(self)@.add_break(address, current).0,
            patch == old(self)@.add_break(address, current).1,
            final(self).loaded() == old(self).loaded(),
    {
        if self.breakpoints.contains_key(&address) {
            None
        } else {
            self.breakpoints.insert(address, current);
            Some(
                Patch { address, byte: TRAP_OPCODE, cache_begin: 0, cache_end: MEMORY_SIZE },
            )
        }
    }

    /// Clears the trap at `address` before it is hit.
    ///
    /// Gives the patch that puts the original byte back. Where no trap
    /// stands there is nothing to write.
    pub fn remove_break(&mut self, address: u64) -> (patch: Option<Patch>)
        ensures
            final(self)@ == old(self)@.remove_break(address).0,
            patch == old(self)@.remove_break(address).1,
            final(self).loaded() == old(self).loaded(),
    {
        match self.breakpoints.remove(&address) {
            Some(original) => Some(
                Patch { address, byte: original, cache_begin: 0, cache_end: MEMORY_SIZE },
            ),
            None => {
                assert(self.breakpoints@ =~= old(self).breakpoints@);
                None
            },
        }
    }

    /// Decides what happens on the system call `number`, whose arguments the
    /// program left in the three argument registers.
    pub fn on_syscall(&mut self, number: u64, descriptor: u64, buffer: u64, length: u64) -> (outcome:
        SyscallOutcome)
        ensures
            final(self)@ == old(self)@.on_syscall(number, descriptor, buffer, length).0,
            outcome == old(self)@.on_syscall(number, descriptor, buffer, length).1,
            final(self).loaded() == old(self).loaded(),
    {
        if number == SYSCALL_WRITE {
            if descriptor == STDOUT {
                SyscallOutcome::Write { stream: OutputStream::Stdout, address: buffer, length }
            } else if descriptor == STDERR {
                SyscallOutcome::Write { stream: OutputStream::Stderr, address: buffer, length }
            } else {
                SyscallOutcome::Halt(RuntimeError::UnsupportedFileDescriptor(descriptor))
            }
        } else if number == SYSCALL_EXIT {
            self.state = SessionState::Exited;
            SyscallOutcome::Exit
        } else {
            SyscallOutcome::Halt(RuntimeError::UnsupportedSyscall(number))
        }
    }

    /// Decides what happens on a trap that the emulator reports with program
    /// counter `pc`, where `byte` is what emulated memory holds at `pc - 1`.
    /// For a `pc` of zero there is no such byte and any value will do.
    pub fn on_trap(&mut self, pc: u64, byte: u8) -> (outcome: TrapOutcome)
        ensures
            final(self)@ == old(self)@.on_trap(pc, byte).0,
            outcome == old(self)@.on_trap(pc, byte).1,
            final(self).loaded() == old(self).loaded(),
    {
        if pc == 0 || byte != TRAP_OPCODE {
            return TrapOutcome::Halt(RuntimeError::UnexpectedTrap { pc });
        }
        let address = pc - 1;
        match self.breakpoints.remove(&address) {
            Some(original) => {
                if !self.exited() {
                    self.state = SessionState::Stopped(address);
                }
                TrapOutcome::Restore(
                    Patch { address, byte: original, cache_begin: 0, cache_end: MEMORY_SIZE },
                )
            },
            None => {
                assert(self.breakpoints@ =~= old(self).breakpoints@);
                TrapOutcome::Halt(RuntimeError::UnexpectedTrap { pc })
            },
        }
    }
}

/// The address of the instruction that a trap at `pc` has just executed:
/// the trap opcode is one byte long and the trap is reported behind it.
pub fn faulting_address(pc: u64) -> (address: Option<u64>)
    ensures
        address == if pc > 0 {
            Some((pc - 1) as u64)
        } else {
            None
        },
{
    if pc > 0 {
        Some(pc - 1)
    } else {
        None
    }
}

} // verus!
