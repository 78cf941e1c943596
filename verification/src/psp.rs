//! The program segment prefix: the 256-byte control block that DOS places in
//! front of a loaded program.

use crate::program::{high_byte, low_byte, LoadError};
use vstd::prelude::*;

verus! {

/// Size in bytes of the serialized program segment prefix.
pub const PSP_SIZE: usize = 256;

/// Size in bytes of the command tail field.
pub const COMMAND_TAIL_FIELD: usize = 127;

/// The longest command tail that fits: the field also holds the terminator.
pub const COMMAND_TAIL_CAPACITY: usize = 126;

/// The carriage return that ends the command tail.
pub const COMMAND_TAIL_END: u8 = 0x0D;

/// The `INT 20h` instruction, as the word that is stored first.
pub const EXIT_INTERRUPT: u16 = 0x20CD;

/// `count` zero bytes.
pub open spec fn zeros(count: nat) -> Seq<u8> {
    Seq::new(count, |index: int| 0u8)
}

/// The two bytes of `value`, low byte first.
pub open spec fn word_bytes(value: u16) -> Seq<u8> {
    seq![low_byte(value), high_byte(value)]
}

/// The four bytes of `value`, lowest byte first.
pub open spec fn dword_bytes(value: u32) -> Seq<u8> {
    seq![
        (value % 256) as u8,
        (value / 256 % 256) as u8,
        (value / 65536 % 256) as u8,
        (value / 16777216) as u8,
    ]
}

/// The content of the command tail field for `tail`: the tail itself, the
/// terminator, and zeros up to the end of the field.
pub open spec fn command_tail_field(tail: Seq<u8>) -> Seq<u8>
    recommends
        tail.len() <= COMMAND_TAIL_CAPACITY,
{
    tail + seq![COMMAND_TAIL_END] + zeros((COMMAND_TAIL_FIELD - 1 - tail.len()) as nat)
}

/// The command tail that a prefix gets when none is given: `" list"`.
pub open spec fn default_command_tail() -> Seq<u8> {
    seq![0x20u8, 0x6Cu8, 0x69u8, 0x73u8, 0x74u8]
}

fn push_word(out: &mut Vec<u8>, value: u16)
    ensures
        final(out)@ == old(out)@ + word_bytes(value),
{
    out.push((value % 256) as u8);
    out.push((value / 256) as u8);
    assert(out@ =~= old(out)@ + word_bytes(value));
}

fn push_dword(out: &mut Vec<u8>, value: u32)
    ensures
        final(out)@ == old(out)@ + dword_bytes(value),
{
    out.push((value % 256) as u8);
    out.push((value / 256 % 256) as u8);
    out.push((value / 65536 % 256) as u8);
    out.push((value / 16777216) as u8);
    assert(out@ =~= old(out)@ + dword_bytes(value));
}

fn push_byte(out: &mut Vec<u8>, value: u8)
    ensures
        final(out)@ == old(out)@ + seq![value],
{
    out.push(value);
    assert(out@ =~= old(out)@ + seq![value]);
}

fn push_bytes(out: &mut Vec<u8>, bytes: &[u8])
    ensures
        final(out)@ == old(out)@ + bytes@,
{
    let mut index: usize = 0;
    while index < bytes.len()
        invariant
            index <= bytes@.len(),
            out@ == old(out)@ + bytes@.take(index as int),
        decreases bytes@.len() - index,
    {
        out.push(bytes[index]);
        assert(out@ =~= old(out)@ + bytes@.take(index as int + 1));
        index += 1;
    }
    assert(bytes@.take(index as int) =~= bytes@);
}

/// The program segment prefix, field by field in the order of its layout.
#[derive(Debug, Clone, Copy)]
pub struct PSP {
    /// The instruction that ends the program, usually `INT 20h`.
    pub exit_interrupt: u16,
    /// Segment of the first byte beyond the memory allocated to the program.
    pub alloc_end: u16,
    pub resv: u8,
    /// Far call to the DOS function dispatcher.
    pub call_disp: u8,
    /// Bytes available in the segment, for `.COM` programs.
    pub com_bytes: u32,
    /// Where to jump when the program ends.
    pub term_addr: u32,
    /// Where to jump on Ctrl-Break.
    pub ctrl_break_addr: u32,
    /// Where to jump on a critical error.
    pub crit_err_addr: u32,
    /// Segment of the parent's prefix.
    pub parent_addr: u16,
    pub file_handle_array: [u8; 20],
    /// Segment of the environment, or zero.
    pub env_segment_addr: u16,
    pub stack_save: u32,
    pub file_handle_size: u16,
    pub file_handle_addr: u32,
    pub prev_psp: u32,
    pub interim_flag: u8,
    pub truename_flag: u8,
    pub nn_flags: u16,
    pub dos_version: u16,
    pub spacer: [u8; 14],
    pub dispatcher: [u8; 3],
    pub spacer_2: [u8; 9],
    pub unopened_fcb_1: [u8; 16],
    pub unopened_fcb_2: [u8; 16],
    pub spacer_3: [u8; 4],
    /// Length of the command tail, terminator not counted.
    pub cmd_trail_chars: u8,
    /// The command tail, its terminator, and padding.
    pub cmd_trail: [u8; 127],
}

impl PSP {
    /// Whether this is the prefix that is built for the given allocation end,
    /// dispatcher call and command tail.
    pub open spec fn is_built_from(&self, alloc_end: u16, call_disp: u8, tail: Seq<u8>) -> bool {
        &&& self.exit_interrupt == EXIT_INTERRUPT
        &&& self.alloc_end == alloc_end
        &&& self.resv == 0
        &&& self.call_disp == call_disp
        &&& self.com_bytes == 0
        &&& self.term_addr == 0xFFFF_FFFF
        &&& self.ctrl_break_addr == 0x9999_9999
        &&& self.crit_err_addr == 0x9999_9999
        &&& self.parent_addr == 0
        &&& self.file_handle_array@ == zeros(20)
        &&& self.env_segment_addr == 0
        &&& self.stack_save == 0
        &&& self.file_handle_size == 0
        &&& self.file_handle_addr == 0x9999_9999
        &&& self.prev_psp == 0
        &&& self.interim_flag == 0
        &&& self.truename_flag == 0
        &&& self.nn_flags == 0
        &&& self.dos_version == 0
        &&& self.spacer@ == zeros(14)
        &&& self.dispatcher@ == zeros(3)
        &&& self.spacer_2@ == zeros(9)
        &&& self.unopened_fcb_1@ == zeros(16)
        &&& self.unopened_fcb_2@ == zeros(16)
        &&& self.spacer_3@ == zeros(4)
        &&& self.cmd_trail_chars == tail.len()
        &&& self.cmd_trail@ == command_tail_field(tail)
    }

    /// The first 128 bytes of the prefix as they stand in memory: every field
    /// in front of the command tail in declaration order, integers low byte
    /// first, nothing in between.
    pub open spec fn serialized_head(&self) -> Seq<u8> {
        word_bytes(self.exit_interrupt) + word_bytes(self.alloc_end) + seq![self.resv] + seq![
            self.call_disp,
        ] + dword_bytes(self.com_bytes) + dword_bytes(self.term_addr) + dword_bytes(
            self.ctrl_break_addr,
        ) + dword_bytes(self.crit_err_addr) + word_bytes(self.parent_addr)
            + self.file_handle_array@ + word_bytes(self.env_segment_addr) + dword_bytes(
            self.stack_save,
        ) + word_bytes(self.file_handle_size) + dword_bytes(self.file_handle_addr) + dword_bytes(
            self.prev_psp,
        ) + seq![self.interim_flag] + seq![self.truename_flag] + word_bytes(self.nn_flags)
            + word_bytes(self.dos_version) + self.spacer@ + self.dispatcher@ + self.spacer_2@
            + self.unopened_fcb_1@ + self.unopened_fcb_2@ + self.spacer_3@
    }

    /// The bytes of the prefix as they stand in memory: the fields in front
    /// of the command tail, the length of the command tail, and the command
    /// tail field.
    pub open spec fn serialized(&self) -> Seq<u8> {
        self.serialized_head() + seq![self.cmd_trail_chars] + self.cmd_trail@
    }

    /// The fields in front of the command tail fill 128 bytes and begin with
    /// the exit instruction and the allocation end.
    pub proof fn lemma_serialized_head_layout(&self)
        ensures
            self.serialized_head().len() == 128,
            self.serialized_head().subrange(0, 2) == word_bytes(self.exit_interrupt),
            self.serialized_head().subrange(2, 4) == word_bytes(self.alloc_end),
    {
        let first = word_bytes(self.exit_interrupt) + word_bytes(self.alloc_end);
        assert(first.len() == 4);
        assert(first.subrange(0, 2) =~= word_bytes(self.exit_interrupt));
        assert(first.subrange(2, 4) =~= word_bytes(self.alloc_end));
        assert(self.serialized_head().len() == 128);
        assert(self.serialized_head().subrange(0, 4) =~= first);
        assert(self.serialized_head().subrange(0, 2) =~= first.subrange(0, 2));
        assert(self.serialized_head().subrange(2, 4) =~= first.subrange(2, 4));
    }

    /// The serialized prefix is always 256 bytes long, with the command tail
    /// length at offset 128 and the command tail behind it.
    pub proof fn lemma_serialized_layout(&self)
        ensures
            self.serialized().len() == PSP_SIZE,
            self.serialized().subrange(0, 2) == word_bytes(self.exit_interrupt),
            self.serialized().subrange(2, 4) == word_bytes(self.alloc_end),
            self.serialized()[128] == self.cmd_trail_chars,
            self.serialized().subrange(129, 256) == self.cmd_trail@,
    {
        self.lemma_serialized_head_layout();
        let head = self.serialized_head();
        assert(self.cmd_trail@.len() == 127);
        assert(self.serialized().subrange(0, 2) =~= head.subrange(0, 2));
        assert(self.serialized().subrange(2, 4) =~= head.subrange(2, 4));
        assert(self.serialized().subrange(129, 256) =~= self.cmd_trail@);
    }

    /// Serializes the prefix for placement in emulated memory.
    pub fn to_bytes(&self) -> (bytes: Vec<u8>)
        ensures
            bytes@ == self.serialized(),
            bytes@.len() == PSP_SIZE,
    {
        let mut out: Vec<u8> = Vec::new();
        assert(out@ + word_bytes(self.exit_interrupt) =~= word_bytes(self.exit_interrupt));
        push_word(&mut out, self.exit_interrupt);
        push_word(&mut out, self.alloc_end);
        push_byte(&mut out, self.resv);
        push_byte(&mut out, self.call_disp);
        push_dword(&mut out, self.com_bytes);
        push_dword(&mut out, self.term_addr);
        push_dword(&mut out, self.ctrl_break_addr);
        push_dword(&mut out, self.crit_err_addr);
        push_word(&mut out, self.parent_addr);
        push_bytes(&mut out, self.file_handle_array.as_slice());
        push_word(&mut out, self.env_segment_addr);
        push_dword(&mut out, self.stack_save);
        push_word(&mut out, self.file_handle_size);
        push_dword(&mut out, self.file_handle_addr);
        push_dword(&mut out, self.prev_psp);
        push_byte(&mut out, self.interim_flag);
        push_byte(&mut out, self.truename_flag);
        push_word(&mut out, self.nn_flags);
        push_word(&mut out, self.dos_version);
        push_bytes(&mut out, self.spacer.as_slice());
        push_bytes(&mut out, self.dispatcher.as_slice());
        push_bytes(&mut out, self.spacer_2.as_slice());
        push_bytes(&mut out, self.unopened_fcb_1.as_slice());
        push_bytes(&mut out, self.unopened_fcb_2.as_slice());
        push_bytes(&mut out, self.spacer_3.as_slice());
        push_byte(&mut out, self.cmd_trail_chars);
        push_bytes(&mut out, self.cmd_trail.as_slice());
        proof {
            self.lemma_serialized_layout();
        }
        out
    }

    /// Builds the prefix for a program whose memory ends at segment
    /// `alloc_end`, with the command tail `" list"`.
    pub fn new(alloc_end: u16, call_disp: u8) -> (psp: PSP)
        ensures
            psp.is_built_from(alloc_end, call_disp, default_command_tail()),
    {
        let tail: [u8; 5] = [0x20, 0x6C, 0x69, 0x73, 0x74];
        assert(tail@ =~= default_command_tail());
        PSP::build(alloc_end, call_disp, tail.as_slice())
    }

    /// Builds the prefix for a program whose memory ends at segment
    /// `alloc_end`, with the command tail `tail`.
    ///
    /// The tail is copied byte for byte behind its length and ended with a
    /// carriage return. A tail of more than 126 bytes leaves no room for the
    /// carriage return and is rejected.
    pub fn with_command_tail(alloc_end: u16, call_disp: u8, tail: &[u8]) -> (result: Result<
        PSP,
        LoadError,
    >)
        ensures
            match result {
                Ok(psp) => {
                    &&& tail@.len() <= COMMAND_TAIL_CAPACITY
                    &&& psp.is_built_from(alloc_end, call_disp, tail@)
                },
                Err(error) => {
                    &&& tail@.len() > COMMAND_TAIL_CAPACITY
                    &&& error == LoadError::CommandTailTooLong
                },
            },
    {
        if tail.len() > COMMAND_TAIL_CAPACITY {
            Err(LoadError::CommandTailTooLong)
        } else {
            Ok(PSP::build(alloc_end, call_disp, tail))
        }
    }

    fn build(alloc_end: u16, call_disp: u8, tail: &[u8]) -> (psp: PSP)
        requires
            tail@.len() <= COMMAND_TAIL_CAPACITY,
        ensures
            psp.is_built_from(alloc_end, call_disp, tail@),
    {
        let mut cmd_trail: [u8; 127] = [0x0;127];
        let mut count: usize = 0;
        while count < tail.len()
            invariant
                count <= tail@.len() <= COMMAND_TAIL_CAPACITY,
                forall|index: int| 0 <= index < count ==> cmd_trail@[index] == tail@[index],
                forall|index: int| count <= index < 127 ==> cmd_trail@[index] == 0,
            decreases tail@.len() - count,
        {
            cmd_trail[count] = tail[count];
            count += 1;
        }
        cmd_trail[count] = COMMAND_TAIL_END;
        let psp = PSP {
            exit_interrupt: EXIT_INTERRUPT,
            alloc_end,
            resv: 0x0,
            call_disp,
            com_bytes: 0x0,
            term_addr: 0xFFFF_FFFF,
            ctrl_break_addr: 0x9999_9999,
            crit_err_addr: 0x9999_9999,
            parent_addr: 0x0,
            file_handle_array: [0;20],
            env_segment_addr: 0x0,
            stack_save: 0x0,
            file_handle_size: 0x0,
            file_handle_addr: 0x9999_9999,
            prev_psp: 0x0,
            interim_flag: 0x0,
            truename_flag: 0x0,
            nn_flags: 0x0,
            dos_version: 0x0,
            spacer: [0x0;14],
            dispatcher: [0x0;3],
            spacer_2: [0x0;9],
            unopened_fcb_1: [0x0;16],
            unopened_fcb_2: [0x0;16],
            spacer_3: [0x0;4],
            cmd_trail_chars: count as u8,
            cmd_trail,
        };
        proof {
            assert(psp.file_handle_array@ =~= zeros(20));
            assert(psp.spacer@ =~= zeros(14));
            assert(psp.dispatcher@ =~= zeros(3));
            assert(psp.spacer_2@ =~= zeros(9));
            assert(psp.unopened_fcb_1@ =~= zeros(16));
            assert(psp.unopened_fcb_2@ =~= zeros(16));
            assert(psp.spacer_3@ =~= zeros(4));
            assert(psp.cmd_trail@ =~= command_tail_field(tail@));
        }
        psp
    }
}

} // verus!
