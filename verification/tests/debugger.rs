use mzdebug::debugger::{read_line, Action, Ast, Command, DebugError, Debugger, ParseVal};
use mzdebug::engine::{
    faulting_address, Engine, SessionState, SyscallOutcome, TrapOutcome, RUN_UNTIL,
};
use mzdebug::program::{Program, WordSum};

fn debugger_at(image: &[u8], start: u64) -> Debugger {
    let mut file = vec![0u8; 32];
    file[0] = 0x4D;
    file[1] = 0x5A;
    file[8] = 2;
    file.extend_from_slice(image);
    Debugger::new(Engine::new(Program::load(&file, 0, WordSum::Bytewise, start).unwrap()))
}

#[test]
fn every_keyword_and_its_short_form_is_read() {
    let table: [(&str, Command); 13] = [
        ("quit", Command::Quit),
        ("q", Command::Quit),
        ("exit", Command::Quit),
        ("print", Command::Print),
        ("p", Command::Print),
        ("run", Command::Run),
        ("r", Command::Run),
        ("next", Command::Next),
        ("n", Command::Next),
        ("continue", Command::Continue),
        ("c", Command::Continue),
        ("logon", Command::Logon),
        ("logoff", Command::Logoff),
    ];
    for (text, command) in table {
        assert_eq!(read_line(text.as_bytes()), Some(ParseVal::Command(command)));
    }
}

#[test]
fn break_lines_carry_their_address() {
    assert_eq!(
        read_line(b"break 100"),
        Some(ParseVal::Command(Command::Break(0x100)))
    );
    assert_eq!(read_line(b"b 100"), Some(ParseVal::Command(Command::Break(0x100))));
    assert_eq!(
        read_line(b"b 1000:0100"),
        Some(ParseVal::Command(Command::Break(0x10100)))
    );
    assert_eq!(
        read_line(b"  break \t ff  and more \r"),
        Some(ParseVal::Command(Command::Break(0xFF)))
    );
}

#[test]
fn break_lines_without_a_valid_address_are_no_commands() {
    assert_eq!(read_line(b"break"), None);
    assert_eq!(read_line(b"b"), None);
    assert_eq!(read_line(b"break xyz"), None);
    assert_eq!(read_line(b"break 10:"), None);
    assert_eq!(read_line(b"break\t100"), None);
    assert_eq!(read_line(b"b 10000000000000000"), None);
}

#[test]
fn blank_and_hash_lines_are_comments() {
    assert_eq!(read_line(b""), Some(ParseVal::Comment));
    assert_eq!(read_line(b"   \t"), Some(ParseVal::Comment));
    assert_eq!(read_line(b"# run"), Some(ParseVal::Comment));
    assert_eq!(read_line(b"   #foobar"), Some(ParseVal::Comment));
    assert_eq!(read_line(b"\r"), Some(ParseVal::Comment));
}

#[test]
fn other_lines_are_no_commands() {
    assert_eq!(read_line(b"foobar"), None);
    assert_eq!(read_line(b"Run"), None);
    assert_eq!(read_line(b"run now"), None);
    assert_eq!(read_line(b"quit # later"), None);
    assert_eq!(read_line(b"logo"), None);
}

#[test]
fn white_space_around_a_keyword_is_ignored() {
    assert_eq!(read_line(b"  run\r"), Some(ParseVal::Command(Command::Run)));
    assert_eq!(read_line(b"\tq "), Some(ParseVal::Command(Command::Quit)));
}

#[test]
fn parse_command_steps_through_the_lines() {
    let lines: [&[u8]; 3] = [b"run", b"# note", b"c"];
    assert_eq!(
        Ast::parse_command(0, &lines),
        Ok(Some((ParseVal::Command(Command::Run), 1)))
    );
    assert_eq!(Ast::parse_command(1, &lines), Ok(Some((ParseVal::Comment, 2))));
    assert_eq!(
        Ast::parse_command(2, &lines),
        Ok(Some((ParseVal::Command(Command::Continue), 3)))
    );
    assert_eq!(Ast::parse_command(3, &lines), Ok(None));
    assert_eq!(Ast::parse_command(usize::MAX, &lines), Ok(None));
}

#[test]
fn parse_command_reports_the_line_number_from_one() {
    let lines: [&[u8]; 2] = [b"run", b"foobar"];
    assert_eq!(
        Ast::parse_command(1, &lines),
        Err(DebugError::UnknownDebugCommand { line: 2 })
    );
}

#[test]
fn script_parses_to_its_commands_in_order() {
    let ast = Ast::new("break 100\nrun\nprint\ncontinue\nquit").unwrap();
    assert_eq!(
        ast.commands,
        vec![
            Command::Break(0x100),
            Command::Run,
            Command::Print,
            Command::Continue,
            Command::Quit,
        ]
    );
}

#[test]
fn script_skips_comments_and_blank_lines() {
    let ast = Ast::new("# set up\n\n  b 10:0\r\n\r\nlogon\n   # go\nr\n").unwrap();
    assert_eq!(
        ast.commands,
        vec![Command::Break(0x100), Command::Logon, Command::Run]
    );
}

#[test]
fn empty_script_has_no_commands() {
    assert!(Ast::new("").unwrap().commands.is_empty());
    assert!(Ast::new("\n\n").unwrap().commands.is_empty());
    assert!(Ast::new("# nothing").unwrap().commands.is_empty());
}

#[test]
fn unknown_command_is_rejected_with_its_line_number() {
    assert_eq!(
        Ast::new("foobar").err(),
        Some(DebugError::UnknownDebugCommand { line: 1 })
    );
    assert_eq!(
        Ast::new("break 100\nrun\n\n# note\nfoobar\nquit").err(),
        Some(DebugError::UnknownDebugCommand { line: 5 })
    );
}

#[test]
fn first_unknown_command_is_the_one_reported() {
    assert_eq!(
        Ast::new("run\nnope\nprint\nneither\n").err(),
        Some(DebugError::UnknownDebugCommand { line: 2 })
    );
}

#[test]
fn unknown_command_leaves_earlier_effects_in_place() {
    // Line by line, as the interactive driver reads them.
    let mut debugger = debugger_at(&[0x90, 0x90], 0x100);
    let first = Ast::new("logon\n").unwrap();
    for command in first.commands {
        debugger.execute(command);
    }
    let second = Ast::new("b 100\n").unwrap();
    for command in second.commands {
        assert_eq!(debugger.execute(command), Action::Probe { address: 0x100 });
    }
    debugger.engine.add_break(0x100, 0x90);
    assert_eq!(
        Ast::new("foobar\n").err(),
        Some(DebugError::UnknownDebugCommand { line: 1 })
    );
    assert!(debugger.engine.verbose());
    assert!(debugger.engine.has_break(0x100));
    assert_eq!(debugger.engine.state(), SessionState::NotStarted);
}

#[test]
fn quit_and_print_leave_the_session_alone() {
    let mut debugger = debugger_at(&[0x90], 0x100);
    assert_eq!(debugger.execute(Command::Print), Action::Print);
    assert_eq!(debugger.execute(Command::Quit), Action::Quit);
    assert_eq!(debugger.engine.state(), SessionState::NotStarted);
}

#[test]
fn logon_and_logoff_switch_tracing() {
    let mut debugger = debugger_at(&[0x90], 0x100);
    assert_eq!(debugger.execute(Command::Logon), Action::Done);
    assert!(debugger.engine.verbose());
    assert_eq!(debugger.execute(Command::Logoff), Action::Done);
    assert!(!debugger.engine.verbose());
}

#[test]
fn run_next_and_continue_ask_for_emulation() {
    let mut debugger = debugger_at(&[0x90, 0x90, 0x90], 0x100);
    assert_eq!(
        debugger.run(),
        Action::Emulate { begin: 0x100, until: RUN_UNTIL, count: 0 }
    );
    debugger.engine.finish_run(0x101);
    assert_eq!(
        debugger.next(),
        Action::Emulate { begin: 0x101, until: RUN_UNTIL, count: 1 }
    );
    debugger.engine.finish_run(0x102);
    assert_eq!(
        debugger.cont(),
        Action::Emulate { begin: 0x102, until: RUN_UNTIL, count: 0 }
    );
}

#[test]
fn break_probes_only_where_no_trap_stands() {
    let mut debugger = debugger_at(&[0x90, 0x90], 0x100);
    assert_eq!(debugger.add_break(0x101), Action::Probe { address: 0x101 });
    assert!(!debugger.engine.has_break(0x101));
    debugger.engine.add_break(0x101, 0x90);
    assert_eq!(debugger.add_break(0x101), Action::Done);
    assert_eq!(debugger.execute(Command::Break(0x101)), Action::Done);
    assert_eq!(
        debugger.execute(Command::Break(0x100)),
        Action::Probe { address: 0x100 }
    );
}

#[test]
fn run_continue_and_next_after_exit_end_the_host_process() {
    let mut debugger = debugger_at(&[0x0F, 0x05], 0x100);
    debugger.run();
    assert_eq!(debugger.engine.on_syscall(60, 0, 0, 0), SyscallOutcome::Exit);
    debugger.engine.finish_run(0x102);
    for command in [Command::Run, Command::Continue, Command::Next] {
        assert_eq!(debugger.execute(command), Action::Quit);
        assert_eq!(debugger.engine.state(), SessionState::Exited);
    }
    assert_eq!(debugger.run(), Action::Quit);
    assert_eq!(debugger.cont(), Action::Quit);
    assert_eq!(debugger.next(), Action::Quit);
}

#[test]
fn script_with_breakpoint_runs_stops_prints_resumes_and_quits() {
    // mov eax, 60 ; syscall
    let image = [0xB8, 0x3C, 0x00, 0x00, 0x00, 0x0F, 0x05];
    let mut debugger = debugger_at(&image, 0x100);
    let plan = debugger.engine.memory_plan();
    let mut memory = vec![0u8; plan.size as usize];
    memory[0x100..0x100 + image.len()].copy_from_slice(&image);
    let pristine = memory.clone();

    let ast = Ast::new("break 100\nrun\nprint\ncontinue\nquit").unwrap();
    let mut log: Vec<String> = Vec::new();
    let mut installed = 0;
    for command in ast.commands {
        match debugger.execute(command) {
            Action::Probe { address } => {
                let patch = debugger.engine.add_break(address, memory[address as usize]).unwrap();
                memory[patch.address as usize] = patch.byte;
                installed += 1;
                log.push(format!("break {:#x}", address));
            }
            Action::Emulate { begin, until: _, count: _ } => {
                // A stand-in for the emulator: it knows the trap opcode and
                // the two instructions of the image.
                let mut pc = begin;
                loop {
                    let opcode = memory[pc as usize];
                    if opcode == 0xCC {
                        pc += 1;
                        let fault = faulting_address(pc).unwrap();
                        match debugger.engine.on_trap(pc, memory[fault as usize]) {
                            TrapOutcome::Restore(patch) => {
                                memory[patch.address as usize] = patch.byte;
                                pc = patch.address;
                            }
                            other => panic!("{:?}", other),
                        }
                        break;
                    } else if opcode == 0xB8 {
                        pc += 5;
                    } else if opcode == 0x0F {
                        pc += 2;
                        assert_eq!(debugger.engine.on_syscall(60, 0, 0, 0), SyscallOutcome::Exit);
                        break;
                    } else {
                        panic!("unexpected opcode {:#x}", opcode);
                    }
                }
                debugger.engine.finish_run(pc);
                log.push(format!("ran from {:#x} to {:#x}", begin, pc));
            }
            Action::Print => log.push(format!("{:?}", debugger.engine.state())),
            Action::Quit => {
                log.push("quit".to_string());
                break;
            }
            Action::Done => {}
        }
    }
    assert_eq!(installed, 1);
    assert_eq!(
        log,
        vec![
            "break 0x100".to_string(),
            "ran from 0x100 to 0x100".to_string(),
            "Stopped(256)".to_string(),
            "ran from 0x100 to 0x107".to_string(),
            "quit".to_string(),
        ]
    );
    assert!(debugger.engine.exited());
    assert_eq!(memory, pristine);
}

#[test]
fn unicode_white_space_around_a_keyword_is_ignored() {
    assert_eq!(
        read_line(&[0xC2, 0xA0, 0x72, 0x75, 0x6E]),
        Some(ParseVal::Command(Command::Run))
    );
    assert_eq!(
        read_line("\u{2003}quit\u{3000}".as_bytes()),
        Some(ParseVal::Command(Command::Quit))
    );
    let lines: [&[u8]; 2] = [b"p", &[0xC2, 0xA0, 0x72, 0x75, 0x6E]];
    assert_eq!(
        Ast::parse_command(1, &lines),
        Ok(Some((ParseVal::Command(Command::Run), 2)))
    );
}

#[test]
fn lines_of_unicode_white_space_are_blank() {
    assert_eq!(read_line(&[0xE3, 0x80, 0x80]), Some(ParseVal::Comment));
    assert_eq!(read_line("\u{a0}\u{85}\u{2028}".as_bytes()), Some(ParseVal::Comment));
    assert!(Ast::new("\u{3000}").unwrap().commands.is_empty());
    assert_eq!(
        Ast::new("\u{3000}\nrun\n\u{a0} \u{2009}\n\u{1680}# note\nquit").unwrap().commands,
        vec![Command::Run, Command::Quit]
    );
}

#[test]
fn unicode_white_space_separates_the_address_of_a_break_line() {
    // The keyword must be followed by a blank; after it any white space goes.
    assert_eq!(
        read_line("b \u{a0}\u{3000}10:20\u{2003}rest".as_bytes()),
        Some(ParseVal::Command(Command::Break(0x120)))
    );
    assert_eq!(
        read_line("break 100\u{85}".as_bytes()),
        Some(ParseVal::Command(Command::Break(0x100)))
    );
    assert_eq!(read_line("b\u{a0}100".as_bytes()), None);
    assert_eq!(read_line("break \u{a0}".as_bytes()), None);
}

#[test]
fn characters_that_resemble_white_space_are_kept() {
    // Zero width space is no white space: the line is no command.
    assert_eq!(read_line("\u{200b}run".as_bytes()), None);
    assert_eq!(read_line("run\u{c5}".as_bytes()), None);
}
