use mzdebug::engine::{
    faulting_address, Engine, MemoryPlan, OutputStream, Patch, RunRequest, RuntimeError,
    SessionState, SyscallOutcome, TrapOutcome, MEMORY_SIZE, RUN_UNTIL, TRAP_OPCODE,
};
use mzdebug::program::{Program, WordSum};

/// A program of `image` with a two-paragraph header and no relocations.
fn program(image: &[u8], start: u64) -> Program {
    let mut file = vec![0u8; 32];
    file[0] = 0x4D;
    file[1] = 0x5A;
    file[8] = 2;
    file.extend_from_slice(image);
    Program::load(&file, 0, WordSum::Bytewise, start).unwrap()
}

fn engine_at(start: u64) -> Engine {
    Engine::new(program(&[0xB8, 0x3C, 0x00, 0x00, 0x00, 0x0F, 0x05], start))
}

/// Emulated memory as the driver would keep it: the image at its address.
fn memory_of(engine: &Engine) -> Vec<u8> {
    let plan = engine.memory_plan();
    let mut memory = vec![0u8; plan.size as usize];
    let at = plan.image_address as usize;
    memory[at..at + plan.image_len].copy_from_slice(engine.program().data());
    memory
}

fn apply(memory: &mut [u8], patch: Patch) {
    memory[patch.address as usize] = patch.byte;
}

#[test]
fn engine_starts_with_nothing_run_and_nothing_trapped() {
    let engine = engine_at(0x1000);
    assert_eq!(engine.state(), SessionState::NotStarted);
    assert!(!engine.exited());
    assert!(!engine.verbose());
    assert!(!engine.has_break(0x1000));
    assert_eq!(engine.program().start(), 0x1000);
}

#[test]
fn memory_plan_maps_eight_mebibytes_and_puts_the_image_at_the_entry() {
    let engine = engine_at(0x1000);
    assert_eq!(
        engine.memory_plan(),
        MemoryPlan {
            base: 0,
            size: 8 * 1024 * 1024,
            psp_address: Some(0xF00),
            image_address: 0x1000,
            image_len: 7,
            image_fits: true,
        }
    );
    assert_eq!(MEMORY_SIZE, 8 * 1024 * 1024);
}

#[test]
fn memory_plan_puts_the_prefix_right_before_the_image() {
    assert_eq!(engine_at(0x100).memory_plan().psp_address, Some(0));
    assert_eq!(engine_at(0x101).memory_plan().psp_address, Some(1));
    assert_eq!(engine_at(0xFF).memory_plan().psp_address, None);
    assert_eq!(engine_at(0).memory_plan().psp_address, None);
}

#[test]
fn memory_plan_tells_when_the_image_leaves_memory() {
    assert!(engine_at(MEMORY_SIZE - 7).memory_plan().image_fits);
    assert!(!engine_at(MEMORY_SIZE - 6).memory_plan().image_fits);
    assert!(!engine_at(MEMORY_SIZE + 1).memory_plan().image_fits);
    assert!(!engine_at(u64::MAX).memory_plan().image_fits);
}

#[test]
fn start_runs_from_the_entry_without_an_instruction_limit() {
    let mut engine = engine_at(0x1000);
    assert_eq!(
        engine.start(),
        RunRequest::Emulate { begin: 0x1000, until: RUN_UNTIL, count: 0 }
    );
    assert_eq!(RUN_UNTIL, 8192);
    assert_eq!(engine.state(), SessionState::Running);
}

#[test]
fn finish_run_suspends_a_run_that_no_hook_ended() {
    let mut engine = engine_at(0x1000);
    engine.start();
    engine.finish_run(0x1005);
    assert_eq!(engine.state(), SessionState::Stopped(0x1005));
    // Nothing is running now, so a second report changes nothing.
    engine.finish_run(0x2000);
    assert_eq!(engine.state(), SessionState::Stopped(0x1005));
}

#[test]
fn finish_run_before_any_run_changes_nothing() {
    let mut engine = engine_at(0x1000);
    engine.finish_run(0x1005);
    assert_eq!(engine.state(), SessionState::NotStarted);
}

#[test]
fn step_and_cont_resume_where_the_session_stopped() {
    let mut engine = engine_at(0x1000);
    assert_eq!(
        engine.step(),
        RunRequest::Emulate { begin: 0x1000, until: RUN_UNTIL, count: 1 }
    );
    engine.finish_run(0x1005);
    assert_eq!(
        engine.step(),
        RunRequest::Emulate { begin: 0x1005, until: RUN_UNTIL, count: 1 }
    );
    engine.finish_run(0x1007);
    assert_eq!(
        engine.cont(),
        RunRequest::Emulate { begin: 0x1007, until: RUN_UNTIL, count: 0 }
    );
    assert_eq!(engine.state(), SessionState::Running);
}

#[test]
fn cont_before_any_run_begins_at_the_entry() {
    let mut engine = engine_at(0x1000);
    assert_eq!(
        engine.cont(),
        RunRequest::Emulate { begin: 0x1000, until: RUN_UNTIL, count: 0 }
    );
}

#[test]
fn set_verbose_switches_tracing_only() {
    let mut engine = engine_at(0x1000);
    engine.set_verbose(true);
    assert!(engine.verbose());
    assert_eq!(engine.state(), SessionState::NotStarted);
    engine.set_verbose(false);
    assert!(!engine.verbose());
}

#[test]
fn add_break_gives_the_trap_patch_once() {
    let mut engine = engine_at(0x1000);
    assert_eq!(
        engine.add_break(0x1005, 0x0F),
        Some(Patch { address: 0x1005, byte: 0xCC, cache_begin: 0, cache_end: MEMORY_SIZE })
    );
    assert_eq!(TRAP_OPCODE, 0xCC);
    assert!(engine.has_break(0x1005));
    assert!(!engine.has_break(0x1004));
    // The trap opcode stands there now; adding again must not record it as
    // the original byte.
    assert_eq!(engine.add_break(0x1005, 0xCC), None);
    engine.start();
    assert_eq!(
        engine.on_trap(0x1006, 0xCC),
        TrapOutcome::Restore(Patch {
            address: 0x1005,
            byte: 0x0F,
            cache_begin: 0,
            cache_end: MEMORY_SIZE
        })
    );
}

#[test]
fn breakpoint_round_trip_restores_the_original_byte() {
    let mut engine = engine_at(0x1000);
    let mut memory = memory_of(&engine);
    let before = memory.clone();
    let address = 0x1005u64;

    let install = engine.add_break(address, memory[address as usize]).unwrap();
    apply(&mut memory, install);
    assert_eq!(memory[address as usize], 0xCC);
    assert!(install.cache_begin <= address && address < install.cache_end);

    engine.start();
    let pc = address + 1;
    let fault = faulting_address(pc).unwrap();
    match engine.on_trap(pc, memory[fault as usize]) {
        TrapOutcome::Restore(restore) => {
            assert_eq!(restore.address, address);
            assert!(restore.cache_begin <= address && address < restore.cache_end);
            apply(&mut memory, restore);
        }
        other => panic!("{:?}", other),
    }
    assert_eq!(memory, before);
    assert_eq!(engine.state(), SessionState::Stopped(address));
    assert!(!engine.has_break(address));
}

#[test]
fn breakpoint_is_single_shot() {
    let mut engine = engine_at(0x1000);
    engine.add_break(0x1000, 0xB8);
    engine.start();
    assert!(matches!(engine.on_trap(0x1001, 0xCC), TrapOutcome::Restore(_)));
    // The trap is gone: a second trap at the same place is not ours.
    assert_eq!(
        engine.on_trap(0x1001, 0xCC),
        TrapOutcome::Halt(RuntimeError::UnexpectedTrap { pc: 0x1001 })
    );
    // It can be armed again.
    assert!(engine.add_break(0x1000, 0xB8).is_some());
}

#[test]
fn trap_on_another_byte_is_unexpected_and_changes_nothing() {
    let mut engine = engine_at(0x1000);
    engine.add_break(0x1000, 0xB8);
    engine.start();
    assert_eq!(
        engine.on_trap(0x1001, 0xCD),
        TrapOutcome::Halt(RuntimeError::UnexpectedTrap { pc: 0x1001 })
    );
    assert!(engine.has_break(0x1000));
    assert_eq!(engine.state(), SessionState::Running);
}

#[test]
fn trap_where_no_breakpoint_stands_is_unexpected() {
    let mut engine = engine_at(0x1000);
    engine.add_break(0x1000, 0xB8);
    engine.start();
    assert_eq!(
        engine.on_trap(0x1003, 0xCC),
        TrapOutcome::Halt(RuntimeError::UnexpectedTrap { pc: 0x1003 })
    );
    assert!(engine.has_break(0x1000));
    assert_eq!(engine.state(), SessionState::Running);
}

#[test]
fn trap_at_program_counter_zero_is_unexpected() {
    let mut engine = engine_at(0x1000);
    engine.start();
    assert_eq!(faulting_address(0), None);
    assert_eq!(
        engine.on_trap(0, 0xCC),
        TrapOutcome::Halt(RuntimeError::UnexpectedTrap { pc: 0 })
    );
}

#[test]
fn faulting_address_is_one_before_the_program_counter() {
    assert_eq!(faulting_address(0x101), Some(0x100));
    assert_eq!(faulting_address(1), Some(0));
    assert_eq!(faulting_address(u64::MAX), Some(u64::MAX - 1));
}

#[test]
fn write_to_descriptor_one_reaches_standard_output() {
    let mut engine = engine_at(0x1000);
    let mut memory = memory_of(&engine);
    memory[0x2000..0x2003].copy_from_slice(b"hi\n");
    engine.start();

    let mut stdout: Vec<u8> = Vec::new();
    let mut stderr: Vec<u8> = Vec::new();
    match engine.on_syscall(1, 1, 0x2000, 3) {
        SyscallOutcome::Write { stream, address, length } => {
            let payload = &memory[address as usize..(address + length) as usize];
            match stream {
                OutputStream::Stdout => stdout.extend_from_slice(payload),
                OutputStream::Stderr => stderr.extend_from_slice(payload),
            }
        }
        other => panic!("{:?}", other),
    }
    assert_eq!(stdout, b"hi\n");
    assert!(stderr.is_empty());
    assert_eq!(engine.state(), SessionState::Running);
}

#[test]
fn write_to_descriptor_two_reaches_standard_error() {
    let mut engine = engine_at(0x1000);
    let mut memory = memory_of(&engine);
    memory[0x2000..0x2003].copy_from_slice(b"hi\n");
    engine.start();

    let mut stdout: Vec<u8> = Vec::new();
    let mut stderr: Vec<u8> = Vec::new();
    match engine.on_syscall(1, 2, 0x2000, 3) {
        SyscallOutcome::Write { stream, address, length } => {
            let payload = &memory[address as usize..(address + length) as usize];
            match stream {
                OutputStream::Stdout => stdout.extend_from_slice(payload),
                OutputStream::Stderr => stderr.extend_from_slice(payload),
            }
        }
        other => panic!("{:?}", other),
    }
    assert_eq!(stderr, b"hi\n");
    assert!(stdout.is_empty());
}

#[test]
fn write_to_another_descriptor_halts_and_keeps_the_session() {
    let mut engine = engine_at(0x1000);
    engine.set_verbose(true);
    engine.add_break(0x1005, 0x0F);
    engine.start();
    for descriptor in [0u64, 3, 7, u64::MAX] {
        assert_eq!(
            engine.on_syscall(1, descriptor, 0x2000, 3),
            SyscallOutcome::Halt(RuntimeError::UnsupportedFileDescriptor(descriptor))
        );
        assert_eq!(engine.state(), SessionState::Running);
        assert!(engine.verbose());
        assert!(engine.has_break(0x1005));
        assert!(!engine.exited());
    }
    // The session still serves a supported call afterwards.
    assert_eq!(
        engine.on_syscall(1, 1, 0x2000, 3),
        SyscallOutcome::Write { stream: OutputStream::Stdout, address: 0x2000, length: 3 }
    );
}

#[test]
fn unknown_system_call_halts_with_its_number() {
    let mut engine = engine_at(0x1000);
    engine.start();
    for number in [0u64, 2, 59, 61, 231, u64::MAX] {
        assert_eq!(
            engine.on_syscall(number, 1, 0, 0),
            SyscallOutcome::Halt(RuntimeError::UnsupportedSyscall(number))
        );
        assert_eq!(engine.state(), SessionState::Running);
    }
}

#[test]
fn exit_system_call_ends_the_session() {
    let mut engine = engine_at(0x1000);
    engine.start();
    assert_eq!(engine.on_syscall(60, 0, 0, 0), SyscallOutcome::Exit);
    assert!(engine.exited());
    assert_eq!(engine.state(), SessionState::Exited);
    engine.finish_run(0x1007);
    assert_eq!(engine.state(), SessionState::Exited);
}

#[test]
fn nothing_runs_after_the_exit() {
    let mut engine = engine_at(0x1000);
    engine.add_break(0x1005, 0x0F);
    engine.start();
    engine.on_syscall(60, 0, 0, 0);
    assert_eq!(engine.start(), RunRequest::Exited);
    assert_eq!(engine.cont(), RunRequest::Exited);
    assert_eq!(engine.step(), RunRequest::Exited);
    assert_eq!(engine.state(), SessionState::Exited);
    // Hooks that still fire do not bring the session back.
    assert_eq!(engine.on_syscall(60, 0, 0, 0), SyscallOutcome::Exit);
    assert!(matches!(engine.on_trap(0x1006, 0xCC), TrapOutcome::Restore(_)));
    assert_eq!(engine.state(), SessionState::Exited);
    assert!(engine.add_break(0x1000, 0xB8).is_some());
    assert!(engine.exited());
}

#[test]
fn remove_break_gives_the_original_byte_back() {
    let mut engine = engine_at(0x1000);
    let mut memory = memory_of(&engine);
    let before = memory.clone();
    let install = engine.add_break(0x1005, memory[0x1005]).unwrap();
    apply(&mut memory, install);
    let restore = engine.remove_break(0x1005).unwrap();
    assert_eq!(
        restore,
        Patch { address: 0x1005, byte: 0x0F, cache_begin: 0, cache_end: MEMORY_SIZE }
    );
    apply(&mut memory, restore);
    assert_eq!(memory, before);
    assert!(!engine.has_break(0x1005));
    assert_eq!(engine.state(), SessionState::NotStarted);
}

#[test]
fn remove_break_where_no_trap_stands_does_nothing() {
    let mut engine = engine_at(0x1000);
    engine.add_break(0x1005, 0x0F);
    assert_eq!(engine.remove_break(0x1004), None);
    assert!(engine.has_break(0x1005));
    assert!(engine.remove_break(0x1005).is_some());
    assert_eq!(engine.remove_break(0x1005), None);
}
