//! The MZ header, its relocation table and the image that is mapped into
//! emulated memory.

use byteorder::{ByteOrder, LittleEndian};
use vstd::arithmetic::div_mod::{lemma_fundamental_div_mod, lemma_fundamental_div_mod_converse};
use vstd::prelude::*;
use vstd::slice::{slice_subrange, slice_to_vec};

verus! {

/// Size in bytes of the fixed part of the header; the relocation table follows it.
pub const FIXED_HEADER_SIZE: usize = 28;

/// Size in bytes of one relocation table entry.
pub const RELOCATION_ENTRY_SIZE: usize = 4;

/// Size in bytes of a paragraph, the unit of segment arithmetic.
pub const PARAGRAPH_SIZE: usize = 16;

/// Why an executable could not be turned into an image.
#[derive(Debug, Clone, Copy, PartialEq, Eq)]
pub enum LoadError {
    /// The file is too short for its header, or the relocation table does not
    /// fit inside the header.
    MalformedHeader,
    /// A relocation entry points at a word that is not inside the image.
    RelocationOutOfBounds,
    /// The command tail does not fit into the program segment prefix.
    CommandTailTooLong,
}

/// The value of the little-endian 16-bit word whose bytes are `lo` and `hi`.
pub open spec fn le_word(lo: u8, hi: u8) -> int {
    lo as int + 256 * (hi as int)
}

/// The little-endian 16-bit word stored at `bytes[at]` and `bytes[at + 1]`.
pub open spec fn word_at(bytes: Seq<u8>, at: int) -> int
    recommends
        0 <= at,
        at + 1 < bytes.len(),
{
    le_word(bytes[at], bytes[at + 1])
}

/// Reads a little-endian word with `byteorder`'s `LittleEndian::read_u16`.
///
/// Trusted: the result is the first byte plus 256 times the second. The
/// outside function panics on fewer than two bytes, which the precondition
/// excludes.
#[verifier::external_body]
fn read_u16_le(buf: &[u8]) -> (value: u16)
    requires
        buf@.len() >= 2,
    ensures
        value as int == le_word(buf@[0], buf@[1]),
{
    LittleEndian::read_u16(buf)
}

/// Reads the header word at byte offset `at`.
fn read_word(bytes: &[u8], at: usize) -> (value: u16)
    requires
        at + 1 < bytes@.len(),
    ensures
        value as int == word_at(bytes@, at as int),
{
    let len = bytes.len();
    assert(at + 2 <= len);
    read_u16_le(slice_subrange(bytes, at, at + 2))
}

/// One entry of the relocation table: the `segment:offset` address of a word
/// in the image that holds a segment value.
#[derive(Debug, Clone, Copy, PartialEq, Eq)]
pub struct Relocation {
    pub offset: u16,
    pub segment: u16,
}

impl Relocation {
    /// The byte offset into the image of the word this entry names.
    pub open spec fn address(self) -> int {
        self.segment as int * 16 + self.offset as int
    }

    /// The byte offset into the image of the word this entry names.
    pub fn flat_address(&self) -> (addr: usize)
        ensures
            addr as int == self.address(),
    {
        self.segment as usize * PARAGRAPH_SIZE + self.offset as usize
    }
}

/// The number of relocation entries that the header bytes announce.
pub open spec fn relocation_count(bytes: Seq<u8>) -> int
    recommends
        bytes.len() >= FIXED_HEADER_SIZE,
{
    word_at(bytes, 6)
}

/// The header size in bytes that the header bytes announce.
pub open spec fn header_bytes(bytes: Seq<u8>) -> int
    recommends
        bytes.len() >= FIXED_HEADER_SIZE,
{
    word_at(bytes, 8) * 16
}

/// The byte offset just past the relocation table, which starts right after
/// the fixed part of the header.
pub open spec fn relocation_table_end(bytes: Seq<u8>) -> int
    recommends
        bytes.len() >= FIXED_HEADER_SIZE,
{
    FIXED_HEADER_SIZE as int + RELOCATION_ENTRY_SIZE as int * relocation_count(bytes)
}

/// Whether `bytes` start with a header that can be decoded: the fixed part is
/// there, and the relocation table lies inside both the buffer and the header.
pub open spec fn header_well_formed(bytes: Seq<u8>) -> bool {
    &&& bytes.len() >= FIXED_HEADER_SIZE
    &&& relocation_table_end(bytes) <= bytes.len()
    &&& relocation_table_end(bytes) <= header_bytes(bytes)
}

/// The `index`-th relocation entry stored in `bytes`.
pub open spec fn relocation_at(bytes: Seq<u8>, index: int) -> Relocation
    recommends
        0 <= index < relocation_count(bytes),
        relocation_table_end(bytes) <= bytes.len(),
{
    Relocation {
        offset: word_at(bytes, FIXED_HEADER_SIZE as int + 4 * index) as u16,
        segment: word_at(bytes, FIXED_HEADER_SIZE as int + 4 * index + 2) as u16,
    }
}

/// The relocation table stored in `bytes`, in file order.
pub open spec fn relocation_entries(bytes: Seq<u8>) -> Seq<Relocation>
    recommends
        header_well_formed(bytes),
{
    Seq::new(relocation_count(bytes) as nat, |index: int| relocation_at(bytes, index))
}

/// The decoded MZ header.
pub struct Header {
    pub last_page_bytes: u16,
    pub pages_in_file: u16,
    pub relocation_rows: u16,
    /// Size of the header in paragraphs; the image starts right after it.
    pub header_size: u16,
    pub min_allocation: u16,
    pub max_allocation: u16,
    pub initial_ss: u16,
    pub initial_sp: u16,
    pub checksum: u16,
    pub initial_ip: u16,
    pub initial_cs: u16,
    pub relocation_addr: u16,
    pub relocation_table: Vec<Relocation>,
    pub overlay: u16,
}

impl Header {
    /// Whether this header is what the fixed-offset fields and the relocation
    /// table of `bytes` decode to.
    pub open spec fn decodes(&self, bytes: Seq<u8>) -> bool {
        &&& self.last_page_bytes == word_at(bytes, 2)
        &&& self.pages_in_file == word_at(bytes, 4)
        &&& self.relocation_rows == word_at(bytes, 6)
        &&& self.header_size == word_at(bytes, 8)
        &&& self.min_allocation == word_at(bytes, 10)
        &&& self.max_allocation == word_at(bytes, 12)
        &&& self.initial_ss == word_at(bytes, 14)
        &&& self.initial_sp == word_at(bytes, 16)
        &&& self.checksum == word_at(bytes, 18)
        &&& self.initial_ip == word_at(bytes, 20)
        &&& self.initial_cs == word_at(bytes, 22)
        &&& self.relocation_addr == word_at(bytes, 24)
        &&& self.overlay == word_at(bytes, 26)
        &&& self.relocation_table@ == relocation_entries(bytes)
    }

    /// The number of bytes that the header occupies at the start of the file.
    pub open spec fn size_in_bytes(&self) -> int {
        self.header_size as int * 16
    }

    /// Decodes the header at the start of `bytes`.
    ///
    /// Every field is a little-endian word at a fixed offset; the relocation
    /// table follows the fixed part as `relocation_rows` pairs of offset and
    /// segment. The bytes are rejected when they are too short for the fixed
    /// part or for the table, or when the table reaches past the header size.
    pub fn new(bytes: &[u8]) -> (result: Result<Header, LoadError>)
        ensures
            match result {
                Ok(header) => header_well_formed(bytes@) && header.decodes(bytes@),
                Err(error) => !header_well_formed(bytes@) && error == LoadError::MalformedHeader,
            },
    {
        if bytes.len() < FIXED_HEADER_SIZE {
            return Err(LoadError::MalformedHeader);
        }
        let relocations_count = read_word(bytes, 6);
        let header_size = read_word(bytes, 8);
        let table_end = FIXED_HEADER_SIZE + RELOCATION_ENTRY_SIZE * (relocations_count as usize);
        if table_end > bytes.len() || table_end > header_size as usize * PARAGRAPH_SIZE {
            return Err(LoadError::MalformedHeader);
        }
        let mut relocations: Vec<Relocation> = Vec::new();
        let mut n: usize = 0;
        while n < relocations_count as usize
            invariant
                n <= relocations_count as usize,
                relocations_count as int == relocation_count(bytes@),
                relocation_table_end(bytes@) <= bytes@.len(),
                relocations@.len() == n,
                forall|index: int|
                    0 <= index < n ==> relocations@[index] == relocation_at(bytes@, index),
            decreases relocations_count as usize - n,
        {
            let at = FIXED_HEADER_SIZE + RELOCATION_ENTRY_SIZE * n;
            relocations.push(
                Relocation { offset: read_word(bytes, at), segment: read_word(bytes, at + 2) },
            );
            n += 1;
        }
        assert(relocations@ =~= relocation_entries(bytes@));
        Ok(
            Header {
                last_page_bytes: read_word(bytes, 2),
                pages_in_file: read_word(bytes, 4),
                relocation_rows: relocations_count,
                header_size,
                min_allocation: read_word(bytes, 10),
                max_allocation: read_word(bytes, 12),
                initial_ss: read_word(bytes, 14),
                initial_sp: read_word(bytes, 16),
                checksum: read_word(bytes, 18),
                initial_ip: read_word(bytes, 20),
                initial_cs: read_word(bytes, 22),
                relocation_addr: read_word(bytes, 24),
                relocation_table: relocations,
                overlay: read_word(bytes, 26),
            },
        )
    }
}

/// How the load segment is added to a relocated word.
#[derive(Debug, Clone, Copy, PartialEq, Eq)]
pub enum WordSum {
    /// Byte by byte, each sum modulo 256: a carry out of the low byte is
    /// dropped. This is what the loader does unless told otherwise.
    Bytewise,
    /// As one 16-bit number, modulo 65536: a carry out of the low byte goes
    /// into the high byte.
    Carrying,
}

/// The low byte of a 16-bit value.
pub open spec fn low_byte(value: u16) -> u8 {
    (value % 256) as u8
}

/// The high byte of a 16-bit value.
pub open spec fn high_byte(value: u16) -> u8 {
    (value / 256) as u8
}

/// The sum of two bytes, modulo 256.
pub open spec fn add_byte(a: u8, b: u8) -> u8 {
    ((a + b) % 256) as u8
}

/// The sum of two 16-bit values, modulo 65536.
pub open spec fn add_word(a: u16, b: u16) -> u16 {
    ((a + b) % 65536) as u16
}

/// The word with bytes `low` and `high` after `load_segment` has been added
/// to it in the way that `sum` names.
pub open spec fn sum_word(low: u8, high: u8, load_segment: u16, sum: WordSum) -> u16 {
    match sum {
        WordSum::Bytewise => le_word(
            add_byte(low, low_byte(load_segment)),
            add_byte(high, high_byte(load_segment)),
        ) as u16,
        WordSum::Carrying => add_word(le_word(low, high) as u16, load_segment),
    }
}

/// Whether the word at byte offset `at` lies inside an image of `len` bytes.
pub open spec fn word_in_image(at: int, len: int) -> bool {
    0 <= at && at + 1 < len
}

/// The image after the load segment has been added to the word at `at`.
/// A word that is not inside the image leaves it unchanged.
pub open spec fn patch_word(image: Seq<u8>, at: int, load_segment: u16, sum: WordSum) -> Seq<u8> {
    if word_in_image(at, image.len() as int) {
        let word = sum_word(image[at], image[at + 1], load_segment, sum);
        image.update(at, low_byte(word)).update(at + 1, high_byte(word))
    } else {
        image
    }
}

/// The image after every entry of `table` has been applied once, in table order.
pub open spec fn relocated(
    image: Seq<u8>,
    table: Seq<Relocation>,
    load_segment: u16,
    sum: WordSum,
) -> Seq<u8>
    decreases table.len(),
{
    if table.len() == 0 {
        image
    } else {
        patch_word(
            relocated(image, table.drop_last(), load_segment, sum),
            table.last().address(),
            load_segment,
            sum,
        )
    }
}

/// Whether every entry of `table` names a word inside an image of `len` bytes.
pub open spec fn relocations_fit(table: Seq<Relocation>, len: int) -> bool {
    forall|index: int|
        0 <= index < table.len() ==> word_in_image(#[trigger] table[index].address(), len)
}

/// Whether the words at `first` and `second` are the same word or share no byte.
pub open spec fn same_or_apart(first: int, second: int) -> bool {
    first == second || first + 1 < second || second + 1 < first
}

/// Whether any two entries of `table` name the same word or words that share
/// no byte.
pub open spec fn words_do_not_overlap(table: Seq<Relocation>) -> bool {
    forall|i: int, j: int|
        0 <= i < table.len() && 0 <= j < table.len() ==> same_or_apart(
            #[trigger] table[i].address(),
            #[trigger] table[j].address(),
        )
}

/// Relocating keeps the length of the image.
pub proof fn lemma_relocated_len(
    image: Seq<u8>,
    table: Seq<Relocation>,
    load_segment: u16,
    sum: WordSum,
)
    ensures
        relocated(image, table, load_segment, sum).len() == image.len(),
    decreases table.len(),
{
    if table.len() > 0 {
        lemma_relocated_len(image, table.drop_last(), load_segment, sum);
    }
}

/// Whether the byte at `index` belongs to a word that an entry of `table` names.
pub open spec fn is_named_byte(table: Seq<Relocation>, index: int) -> bool {
    exists|entry: int|
        0 <= entry < table.len() && (index == #[trigger] table[entry].address() || index
            == table[entry].address() + 1)
}

/// Whether the words that two different entries of `table` name never share
/// a byte.
pub open spec fn words_are_apart(table: Seq<Relocation>) -> bool {
    forall|i: int, j: int|
        0 <= i < table.len() && 0 <= j < table.len() && i != j ==> {
            ||| #[trigger] table[i].address() + 1 < #[trigger] table[j].address()
            ||| table[j].address() + 1 < table[i].address()
        }
}

/// Relocation changes no byte outside the words that the table names.
pub proof fn lemma_relocation_keeps_other_bytes(
    image: Seq<u8>,
    table: Seq<Relocation>,
    load_segment: u16,
    sum: WordSum,
    index: int,
)
    requires
        0 <= index < image.len(),
        !is_named_byte(table, index),
    ensures
        relocated(image, table, load_segment, sum)[index] == image[index],
    decreases table.len(),
{
    if table.len() > 0 {
        let rest = table.drop_last();
        let last = table.len() - 1;
        assert forall|entry: int| 0 <= entry < rest.len() implies !(index
            == #[trigger] rest[entry].address() || index == rest[entry].address() + 1) by {
            assert(rest[entry] == table[entry]);
            assert(index != table[entry].address() && index != table[entry].address() + 1);
        }
        lemma_relocation_keeps_other_bytes(image, rest, load_segment, sum, index);
        lemma_relocated_len(image, rest, load_segment, sum);
        assert(index != table[last].address() && index != table[last].address() + 1);
    }
}

/// Where no two entries name words that share a byte, relocation adds the
/// load segment to each named word exactly once: the word holds the sum of
/// what the image held there and the load segment.
pub proof fn lemma_relocation_sums_each_word_once(
    image: Seq<u8>,
    table: Seq<Relocation>,
    load_segment: u16,
    sum: WordSum,
    entry: int,
)
    requires
        words_are_apart(table),
        0 <= entry < table.len(),
        word_in_image(table[entry].address(), image.len() as int),
    ensures
        ({
            let at = table[entry].address();
            let word = sum_word(image[at], image[at + 1], load_segment, sum);
            &&& relocated(image, table, load_segment, sum)[at] == low_byte(word)
            &&& relocated(image, table, load_segment, sum)[at + 1] == high_byte(word)
        }),
    decreases table.len(),
{
    let rest = table.drop_last();
    let last = table.len() - 1;
    let at = table[entry].address();
    let before = relocated(image, rest, load_segment, sum);
    lemma_relocated_len(image, rest, load_segment, sum);
    if entry == last {
        assert forall|other: int| 0 <= other < rest.len() implies !(at
            == #[trigger] rest[other].address() || at == rest[other].address() + 1) && !(at + 1
            == rest[other].address() || at + 1 == rest[other].address() + 1) by {
            assert(rest[other] == table[other]);
            assert(table[other].address() + 1 < table[last].address() || table[last].address()
                + 1 < table[other].address());
        }
        lemma_relocation_keeps_other_bytes(image, rest, load_segment, sum, at);
        lemma_relocation_keeps_other_bytes(image, rest, load_segment, sum, at + 1);
    } else {
        assert forall|i: int, j: int|
            0 <= i < rest.len() && 0 <= j < rest.len() && i != j implies {
            ||| #[trigger] rest[i].address() + 1 < #[trigger] rest[j].address()
            ||| rest[j].address() + 1 < rest[i].address()
        } by {
            assert(rest[i] == table[i]);
            assert(rest[j] == table[j]);
        }
        assert(rest[entry] == table[entry]);
        lemma_relocation_sums_each_word_once(image, rest, load_segment, sum, entry);
        assert(table[entry].address() + 1 < table[last].address() || table[last].address() + 1
            < table[entry].address());
    }
}

/// A sum of two bytes modulo 256 is the sum itself, or the sum less 256.
proof fn lemma_add_byte_value(a: u8, b: u8)
    ensures
        add_byte(a, b) == if a + b < 256 {
            a + b
        } else {
            a + b - 256
        },
{
    let total = a + b;
    if total < 256 {
        lemma_fundamental_div_mod_converse(total, 256, 0, total);
    } else {
        lemma_fundamental_div_mod_converse(total, 256, 1, total - 256);
    }
}

/// A sum of two words modulo 65536 is the sum itself, or the sum less 65536.
proof fn lemma_add_word_value(a: u16, b: u16)
    ensures
        add_word(a, b) == if a + b < 65536 {
            a + b
        } else {
            a + b - 65536
        },
{
    let total = a + b;
    if total < 65536 {
        lemma_fundamental_div_mod_converse(total, 65536, 0, total);
    } else {
        lemma_fundamental_div_mod_converse(total, 65536, 1, total - 65536);
    }
}

/// A word is the word of its two bytes.
proof fn lemma_word_of_its_bytes(word: u16)
    ensures
        le_word(low_byte(word), high_byte(word)) == word,
{
    lemma_fundamental_div_mod(word as int, 256);
}

/// The bytes of the word of two bytes are those two bytes.
proof fn lemma_bytes_of_word(low: u8, high: u8)
    ensures
        0 <= le_word(low, high) < 65536,
        low_byte(le_word(low, high) as u16) == low,
        high_byte(le_word(low, high) as u16) == high,
{
    lemma_fundamental_div_mod_converse(le_word(low, high), 256, high as int, low as int);
}

proof fn lemma_add_word_twice(value: u16, a: u16, b: u16)
    ensures
        add_word(add_word(value, a), b) == add_word(value, add_word(a, b)),
{
    lemma_add_word_value(value, a);
    lemma_add_word_value(add_word(value, a), b);
    lemma_add_word_value(a, b);
    lemma_add_word_value(value, add_word(a, b));
}

proof fn lemma_add_word_commutes(value: u16, a: u16, b: u16)
    ensures
        add_word(add_word(value, a), b) == add_word(add_word(value, b), a),
{
    lemma_add_word_value(value, a);
    lemma_add_word_value(add_word(value, a), b);
    lemma_add_word_value(value, b);
    lemma_add_word_value(add_word(value, b), a);
}

proof fn lemma_sum_word_zero(low: u8, high: u8, sum: WordSum)
    ensures
        low_byte(sum_word(low, high, 0, sum)) == low,
        high_byte(sum_word(low, high, 0, sum)) == high,
{
    lemma_bytes_of_word(low, high);
    lemma_fundamental_div_mod_converse(0, 256, 0, 0);
    assert(low_byte(0) == 0 && high_byte(0) == 0);
    match sum {
        WordSum::Bytewise => {
            lemma_add_byte_value(low, 0);
            lemma_add_byte_value(high, 0);
            assert(sum_word(low, high, 0, sum) == le_word(low, high));
        },
        WordSum::Carrying => {
            lemma_add_word_value(le_word(low, high) as u16, 0);
            assert(sum_word(low, high, 0, sum) == le_word(low, high));
        },
    }
}

/// Relocating for load segment zero leaves the image byte for byte as it
/// was, whichever way words are summed.
pub proof fn lemma_relocate_zero_is_identity(image: Seq<u8>, table: Seq<Relocation>, sum: WordSum)
    ensures
        relocated(image, table, 0, sum) == image,
    decreases table.len(),
{
    if table.len() > 0 {
        lemma_relocate_zero_is_identity(image, table.drop_last(), sum);
        let at = table.last().address();
        if word_in_image(at, image.len() as int) {
            lemma_sum_word_zero(image[at], image[at + 1], sum);
        }
        assert(patch_word(image, at, 0, sum) =~= image);
    }
}

/// What a byte-wise patch at `at` adds to the byte at `index` of an image of
/// `len` bytes.
spec fn patch_delta(at: int, load_segment: u16, len: int, index: int) -> u8 {
    if word_in_image(at, len) && index == at {
        low_byte(load_segment)
    } else if word_in_image(at, len) && index == at + 1 {
        high_byte(load_segment)
    } else {
        0
    }
}

proof fn lemma_bytewise_sum_bytes(low: u8, high: u8, load_segment: u16)
    ensures
        low_byte(sum_word(low, high, load_segment, WordSum::Bytewise)) == add_byte(
            low,
            low_byte(load_segment),
        ),
        high_byte(sum_word(low, high, load_segment, WordSum::Bytewise)) == add_byte(
            high,
            high_byte(load_segment),
        ),
{
    lemma_bytes_of_word(
        add_byte(low, low_byte(load_segment)),
        add_byte(high, high_byte(load_segment)),
    );
}

proof fn lemma_patch_pointwise(image: Seq<u8>, at: int, load_segment: u16)
    ensures
        patch_word(image, at, load_segment, WordSum::Bytewise).len() == image.len(),
        forall|index: int|
            0 <= index < image.len() ==> #[trigger] patch_word(
                image,
                at,
                load_segment,
                WordSum::Bytewise,
            )[index] == add_byte(
                image[index],
                patch_delta(at, load_segment, image.len() as int, index),
            ),
{
    if word_in_image(at, image.len() as int) {
        lemma_bytewise_sum_bytes(image[at], image[at + 1], load_segment);
    }
}

proof fn lemma_add_byte_commutes(value: u8, a: u8, b: u8)
    ensures
        add_byte(add_byte(value, a), b) == add_byte(add_byte(value, b), a),
{
    lemma_add_byte_value(value, a);
    lemma_add_byte_value(add_byte(value, a), b);
    lemma_add_byte_value(value, b);
    lemma_add_byte_value(add_byte(value, b), a);
}

proof fn lemma_add_byte_twice(value: u8, a: u8, b: u8)
    ensures
        add_byte(add_byte(value, a), b) == add_byte(value, add_byte(a, b)),
{
    lemma_add_byte_value(value, a);
    lemma_add_byte_value(add_byte(value, a), b);
    lemma_add_byte_value(a, b);
    lemma_add_byte_value(value, add_byte(a, b));
}

proof fn lemma_bytewise_patch_commutes(
    image: Seq<u8>,
    at_first: int,
    first: u16,
    at_second: int,
    second: u16,
)
    ensures
        patch_word(
            patch_word(image, at_first, first, WordSum::Bytewise),
            at_second,
            second,
            WordSum::Bytewise,
        ) == patch_word(
            patch_word(image, at_second, second, WordSum::Bytewise),
            at_first,
            first,
            WordSum::Bytewise,
        ),
{
    let len = image.len() as int;
    let first_then = patch_word(image, at_first, first, WordSum::Bytewise);
    let second_then = patch_word(image, at_second, second, WordSum::Bytewise);
    let left = patch_word(first_then, at_second, second, WordSum::Bytewise);
    let right = patch_word(second_then, at_first, first, WordSum::Bytewise);
    lemma_patch_pointwise(image, at_first, first);
    lemma_patch_pointwise(image, at_second, second);
    lemma_patch_pointwise(first_then, at_second, second);
    lemma_patch_pointwise(second_then, at_first, first);
    assert forall|index: int| 0 <= index < len implies left[index] == right[index] by {
        lemma_add_byte_commutes(
            image[index],
            patch_delta(at_first, first, len, index),
            patch_delta(at_second, second, len, index),
        );
    }
    assert(left =~= right);
}

proof fn lemma_bytewise_patch_commutes_with_relocated(
    image: Seq<u8>,
    table: Seq<Relocation>,
    load_segment: u16,
    at: int,
    other: u16,
)
    ensures
        relocated(
            patch_word(image, at, other, WordSum::Bytewise),
            table,
            load_segment,
            WordSum::Bytewise,
        ) == patch_word(
            relocated(image, table, load_segment, WordSum::Bytewise),
            at,
            other,
            WordSum::Bytewise,
        ),
    decreases table.len(),
{
    if table.len() > 0 {
        lemma_bytewise_patch_commutes_with_relocated(
            image,
            table.drop_last(),
            load_segment,
            at,
            other,
        );
        lemma_bytewise_patch_commutes(
            relocated(image, table.drop_last(), load_segment, WordSum::Bytewise),
            at,
            other,
            table.last().address(),
            load_segment,
        );
    }
}

/// Whether the low bytes of two load segments sum without a carry.
pub open spec fn low_bytes_add_without_carry(first: u16, second: u16) -> bool {
    low_byte(first) + low_byte(second) < 256
}

proof fn lemma_segment_bytes_add(first: u16, second: u16)
    requires
        low_bytes_add_without_carry(first, second),
    ensures
        low_byte(add_word(first, second)) == add_byte(low_byte(first), low_byte(second)),
        high_byte(add_word(first, second)) == add_byte(high_byte(first), high_byte(second)),
{
    let low = low_byte(first) + low_byte(second);
    let high = high_byte(first) + high_byte(second);
    let total = add_word(first, second);
    lemma_word_of_its_bytes(first);
    lemma_word_of_its_bytes(second);
    lemma_add_word_value(first, second);
    lemma_add_byte_value(low_byte(first), low_byte(second));
    lemma_add_byte_value(high_byte(first), high_byte(second));
    assert(first + second == low + 256 * high);
    if first + second < 65536 {
        assert(high < 256);
        lemma_fundamental_div_mod_converse(total as int, 256, high, low);
    } else {
        assert(high >= 256);
        assert(total == low + 256 * (high - 256));
        lemma_fundamental_div_mod_converse(total as int, 256, high - 256, low);
    }
}

proof fn lemma_bytewise_patch_is_additive(image: Seq<u8>, at: int, first: u16, second: u16)
    requires
        low_bytes_add_without_carry(first, second),
    ensures
        patch_word(
            patch_word(image, at, first, WordSum::Bytewise),
            at,
            second,
            WordSum::Bytewise,
        ) == patch_word(image, at, add_word(first, second), WordSum::Bytewise),
{
    let len = image.len() as int;
    let total = add_word(first, second);
    let once = patch_word(image, at, first, WordSum::Bytewise);
    let twice = patch_word(once, at, second, WordSum::Bytewise);
    let direct = patch_word(image, at, total, WordSum::Bytewise);
    lemma_segment_bytes_add(first, second);
    lemma_patch_pointwise(image, at, first);
    lemma_patch_pointwise(once, at, second);
    lemma_patch_pointwise(image, at, total);
    assert forall|index: int| 0 <= index < len implies twice[index] == direct[index] by {
        lemma_add_byte_twice(
            image[index],
            patch_delta(at, first, len, index),
            patch_delta(at, second, len, index),
        );
    }
    assert(twice =~= direct);
}

/// Summing byte by byte, relocating for one load segment and then for
/// another gives the image that relocating once for their sum gives, as long
/// as the low bytes of the two segments sum without a carry.
pub proof fn lemma_bytewise_relocation_is_additive(
    image: Seq<u8>,
    table: Seq<Relocation>,
    first: u16,
    second: u16,
)
    requires
        low_bytes_add_without_carry(first, second),
    ensures
        relocated(
            relocated(image, table, first, WordSum::Bytewise),
            table,
            second,
            WordSum::Bytewise,
        ) == relocated(image, table, add_word(first, second), WordSum::Bytewise),
    decreases table.len(),
{
    if table.len() > 0 {
        let rest = table.drop_last();
        let at = table.last().address();
        lemma_bytewise_relocation_is_additive(image, rest, first, second);
        lemma_bytewise_patch_commutes_with_relocated(
            relocated(image, rest, first, WordSum::Bytewise),
            rest,
            second,
            at,
            first,
        );
        lemma_bytewise_patch_is_additive(
            relocated(image, rest, add_word(first, second), WordSum::Bytewise),
            at,
            first,
            second,
        );
    }
}

proof fn lemma_carrying_sum_twice(low: u8, high: u8, first: u16, second: u16)
    ensures
        ({
            let once = sum_word(low, high, first, WordSum::Carrying);
            sum_word(low_byte(once), high_byte(once), second, WordSum::Carrying) == sum_word(
                low,
                high,
                add_word(first, second),
                WordSum::Carrying,
            )
        }),
{
    lemma_bytes_of_word(low, high);
    let word = le_word(low, high) as u16;
    let once = add_word(word, first);
    assert(sum_word(low, high, first, WordSum::Carrying) == once);
    lemma_word_of_its_bytes(once);
    assert(sum_word(low_byte(once), high_byte(once), second, WordSum::Carrying) == add_word(
        once,
        second,
    ));
    lemma_add_word_twice(word, first, second);
}

proof fn lemma_carrying_patch_is_additive(image: Seq<u8>, at: int, first: u16, second: u16)
    ensures
        patch_word(
            patch_word(image, at, first, WordSum::Carrying),
            at,
            second,
            WordSum::Carrying,
        ) == patch_word(image, at, add_word(first, second), WordSum::Carrying),
{
    if word_in_image(at, image.len() as int) {
        lemma_carrying_sum_twice(image[at], image[at + 1], first, second);
    }
    assert(patch_word(
        patch_word(image, at, first, WordSum::Carrying),
        at,
        second,
        WordSum::Carrying,
    ) =~= patch_word(image, at, add_word(first, second), WordSum::Carrying));
}

proof fn lemma_carrying_sum_commutes(low: u8, high: u8, first: u16, second: u16)
    ensures
        ({
            let by_first = sum_word(low, high, first, WordSum::Carrying);
            let by_second = sum_word(low, high, second, WordSum::Carrying);
            sum_word(low_byte(by_first), high_byte(by_first), second, WordSum::Carrying)
                == sum_word(low_byte(by_second), high_byte(by_second), first, WordSum::Carrying)
        }),
{
    lemma_bytes_of_word(low, high);
    let word = le_word(low, high) as u16;
    let by_first = add_word(word, first);
    let by_second = add_word(word, second);
    assert(sum_word(low, high, first, WordSum::Carrying) == by_first);
    assert(sum_word(low, high, second, WordSum::Carrying) == by_second);
    lemma_word_of_its_bytes(by_first);
    lemma_word_of_its_bytes(by_second);
    assert(sum_word(low_byte(by_first), high_byte(by_first), second, WordSum::Carrying)
        == add_word(by_first, second));
    assert(sum_word(low_byte(by_second), high_byte(by_second), first, WordSum::Carrying)
        == add_word(by_second, first));
    lemma_add_word_commutes(word, first, second);
}

proof fn lemma_carrying_patch_commutes(
    image: Seq<u8>,
    at_first: int,
    first: u16,
    at_second: int,
    second: u16,
)
    requires
        same_or_apart(at_first, at_second),
    ensures
        patch_word(
            patch_word(image, at_first, first, WordSum::Carrying),
            at_second,
            second,
            WordSum::Carrying,
        ) == patch_word(
            patch_word(image, at_second, second, WordSum::Carrying),
            at_first,
            first,
            WordSum::Carrying,
        ),
{
    if at_first == at_second && word_in_image(at_first, image.len() as int) {
        lemma_carrying_sum_commutes(image[at_first], image[at_first + 1], first, second);
    }
    assert(patch_word(
        patch_word(image, at_first, first, WordSum::Carrying),
        at_second,
        second,
        WordSum::Carrying,
    ) =~= patch_word(
        patch_word(image, at_second, second, WordSum::Carrying),
        at_first,
        first,
        WordSum::Carrying,
    ));
}

proof fn lemma_carrying_patch_commutes_with_relocated(
    image: Seq<u8>,
    table: Seq<Relocation>,
    load_segment: u16,
    at: int,
    other: u16,
)
    requires
        forall|index: int|
            0 <= index < table.len() ==> same_or_apart(at, #[trigger] table[index].address()),
    ensures
        relocated(
            patch_word(image, at, other, WordSum::Carrying),
            table,
            load_segment,
            WordSum::Carrying,
        ) == patch_word(
            relocated(image, table, load_segment, WordSum::Carrying),
            at,
            other,
            WordSum::Carrying,
        ),
    decreases table.len(),
{
    if table.len() > 0 {
        let rest = table.drop_last();
        assert forall|index: int| 0 <= index < rest.len() implies same_or_apart(
            at,
            #[trigger] rest[index].address(),
        ) by {
            assert(rest[index] == table[index]);
        }
        lemma_carrying_patch_commutes_with_relocated(image, rest, load_segment, at, other);
        assert(same_or_apart(at, table[table.len() - 1].address()));
        lemma_carrying_patch_commutes(
            relocated(image, rest, load_segment, WordSum::Carrying),
            at,
            other,
            table.last().address(),
            load_segment,
        );
    }
}

/// Summing with carry, relocating for one load segment and then for another
/// gives the image that relocating once for their sum gives, as long as no
/// two entries of the table name words that overlap in one byte only.
pub proof fn lemma_carrying_relocation_is_additive(
    image: Seq<u8>,
    table: Seq<Relocation>,
    first: u16,
    second: u16,
)
    requires
        words_do_not_overlap(table),
    ensures
        relocated(
            relocated(image, table, first, WordSum::Carrying),
            table,
            second,
            WordSum::Carrying,
        ) == relocated(image, table, add_word(first, second), WordSum::Carrying),
    decreases table.len(),
{
    if table.len() > 0 {
        let rest = table.drop_last();
        let at = table.last().address();
        assert forall|i: int, j: int| 0 <= i < rest.len() && 0 <= j < rest.len() implies same_or_apart(
            #[trigger] rest[i].address(),
            #[trigger] rest[j].address(),
        ) by {
            assert(rest[i] == table[i]);
            assert(rest[j] == table[j]);
        }
        assert forall|index: int| 0 <= index < rest.len() implies same_or_apart(
            at,
            #[trigger] rest[index].address(),
        ) by {
            assert(rest[index] == table[index]);
            assert(same_or_apart(table[table.len() - 1].address(), table[index].address()));
        }
        lemma_carrying_relocation_is_additive(image, rest, first, second);
        lemma_carrying_patch_commutes_with_relocated(
            relocated(image, rest, first, WordSum::Carrying),
            rest,
            second,
            at,
            first,
        );
        lemma_carrying_patch_is_additive(
            relocated(image, rest, add_word(first, second), WordSum::Carrying),
            at,
            first,
            second,
        );
    }
}

fn add_wrapping(a: u8, b: u8) -> (sum: u8)
    ensures
        sum == add_byte(a, b),
{
    ((a as u16 + b as u16) % 256) as u8
}

/// Adds `load_segment` to the word with bytes `low` and `high`.
fn sum_bytes(low: u8, high: u8, load_segment: u16, sum: WordSum) -> (word: (u8, u8))
    ensures
        word.0 == low_byte(sum_word(low, high, load_segment, sum)),
        word.1 == high_byte(sum_word(low, high, load_segment, sum)),
{
    match sum {
        WordSum::Bytewise => {
            proof {
                lemma_bytewise_sum_bytes(low, high, load_segment);
            }
            (
                add_wrapping(low, (load_segment % 256) as u8),
                add_wrapping(high, (load_segment / 256) as u8),
            )
        },
        WordSum::Carrying => {
            let word = low as u32 + 256 * (high as u32);
            let total = (word + load_segment as u32) % 65536;
            ((total % 256) as u8, (total / 256) as u8)
        },
    }
}

/// Adds `load_segment` to every word of `image` that `table` names, in the
/// way that `sum` names.
///
/// The table is looked through before anything is written: when an entry
/// names a word outside the image, the image is left as it was.
pub fn relocate(
    image: &mut Vec<u8>,
    table: &[Relocation],
    load_segment: u16,
    sum: WordSum,
) -> (result: Result<(), LoadError>)
    ensures
        final(image)@.len() == old(image)@.len(),
        match result {
            Ok(()) => {
                &&& relocations_fit(table@, old(image)@.len() as int)
                &&& final(image)@ == relocated(old(image)@, table@, load_segment, sum)
            },
            Err(error) => {
                &&& !relocations_fit(table@, old(image)@.len() as int)
                &&& error == LoadError::RelocationOutOfBounds
                &&& final(image)@ == old(image)@
            },
        },
{
    let len = image.len();
    let mut seen: usize = 0;
    while seen < table.len()
        invariant
            seen <= table@.len(),
            len == image@.len(),
            forall|index: int|
                0 <= index < seen ==> word_in_image(
                    #[trigger] table@[index].address(),
                    len as int,
                ),
        decreases table@.len() - seen,
    {
        let at = table[seen].flat_address();
        if at >= len || len - at < 2 {
            assert(!word_in_image(table@[seen as int].address(), len as int));
            return Err(LoadError::RelocationOutOfBounds);
        }
        seen += 1;
    }
    let ghost before = image@;
    let mut applied: usize = 0;
    while applied < table.len()
        invariant
            applied <= table@.len(),
            len == image@.len(),
            before.len() == len,
            relocations_fit(table@, len as int),
            image@ == relocated(before, table@.take(applied as int), load_segment, sum),
        decreases table@.len() - applied,
    {
        let at = table[applied].flat_address();
        assert(word_in_image(table@[applied as int].address(), len as int));
        let (low, high) = sum_bytes(image[at], image[at + 1], load_segment, sum);
        image.set(at, low);
        image.set(at + 1, high);
        proof {
            let next = table@.take(applied as int + 1);
            assert(next.drop_last() =~= table@.take(applied as int));
            assert(next.last() == table@[applied as int]);
        }
        applied += 1;
    }
    assert(table@.take(applied as int) =~= table@);
    Ok(())
}

/// The bytes of `file` that follow its header: the image before relocation.
pub open spec fn stripped(file: Seq<u8>) -> Seq<u8>
    recommends
        header_well_formed(file),
        header_bytes(file) <= file.len(),
{
    file.skip(header_bytes(file))
}

/// Whether `file` holds a decodable header and all the bytes that the header
/// claims for itself.
pub open spec fn header_complete(file: Seq<u8>) -> bool {
    header_well_formed(file) && header_bytes(file) <= file.len()
}

/// Whether `file` can be loaded: its header is complete and every relocation
/// entry names a word of the image that follows the header.
pub open spec fn loadable(file: Seq<u8>) -> bool {
    header_complete(file) && relocations_fit(
        relocation_entries(file),
        stripped(file).len() as int,
    )
}

/// The sixteen low bits of an address, which serve as the load segment when
/// none is given.
pub open spec fn default_load_segment(start: u64) -> u16 {
    (start % 65536) as u16
}

/// An executable that is ready to be written into emulated memory: the
/// relocated image, the address where execution starts, and the header the
/// image came with.
pub struct Program {
    data: Vec<u8>,
    start: u64,
    header: Header,
}

impl Program {
    /// The relocated image, header stripped.
    pub closed spec fn image(&self) -> Seq<u8> {
        self.data@
    }

    /// The address where execution starts.
    pub closed spec fn entry(&self) -> u64 {
        self.start
    }

    /// The header that the image came with.
    pub closed spec fn decoded_header(&self) -> Header {
        self.header
    }

    /// Whether this program is what loading `file` for `load_segment` and
    /// entry address `start` gives.
    pub open spec fn is_loaded_from(
        &self,
        file: Seq<u8>,
        load_segment: u16,
        sum: WordSum,
        start: u64,
    ) -> bool {
        &&& self.decoded_header().decodes(file)
        &&& self.image() == relocated(stripped(file), relocation_entries(file), load_segment, sum)
        &&& self.entry() == start
    }

    /// Whether `result` is what loading `file` gives.
    ///
    /// A loadable file gives its program: the image is as long as the file
    /// without the `header_size * 16` bytes of the header, and every
    /// relocation entry names a word inside it. A file whose header is
    /// incomplete is malformed; one with a complete header and an entry that
    /// names a word outside the image has a relocation out of bounds.
    pub open spec fn is_load_result(
        result: Result<Program, LoadError>,
        file: Seq<u8>,
        load_segment: u16,
        sum: WordSum,
        start: u64,
    ) -> bool {
        match result {
            Ok(program) => {
                &&& loadable(file)
                &&& program.is_loaded_from(file, load_segment, sum, start)
                &&& program.image().len() == file.len() - program.decoded_header().size_in_bytes()
                &&& relocations_fit(
                    program.decoded_header().relocation_table@,
                    program.image().len() as int,
                )
            },
            Err(error) => {
                &&& !loadable(file)
                &&& error == if header_complete(file) {
                    LoadError::RelocationOutOfBounds
                } else {
                    LoadError::MalformedHeader
                }
            },
        }
    }

    /// Loads the executable in `file`: decodes the header, drops the header's
    /// `header_size * 16` bytes and relocates what is left for `load_segment`,
    /// summing words in the way that `sum` names.
    ///
    /// The entry address is the caller's; the header's initial `CS:IP` is
    /// decoded and kept in the header, not applied.
    pub fn load(file: &[u8], load_segment: u16, sum: WordSum, start: u64) -> (result: Result<
        Program,
        LoadError,
    >)
        ensures
            Program::is_load_result(result, file@, load_segment, sum, start),
    {
        let header = match Header::new(file) {
            Ok(header) => header,
            Err(error) => {
                return Err(error);
            },
        };
        let header_len = header.header_size as usize * PARAGRAPH_SIZE;
        if header_len > file.len() {
            return Err(LoadError::MalformedHeader);
        }
        let mut data = slice_to_vec(slice_subrange(file, header_len, file.len()));
        assert(data@ =~= stripped(file@));
        match relocate(&mut data, header.relocation_table.as_slice(), load_segment, sum) {
            Ok(()) => {
                proof {
                    lemma_relocated_len(
                        stripped(file@),
                        relocation_entries(file@),
                        load_segment,
                        sum,
                    );
                }
                Ok(Program { data, start, header })
            },
            Err(error) => Err(error),
        }
    }

    /// Loads the executable in `file` for entry address `start`, with the
    /// sixteen low bits of `start` as the load segment and words summed byte
    /// by byte.
    pub fn new(file: &[u8], start: u64) -> (result: Result<Program, LoadError>)
        ensures
            Program::is_load_result(
                result,
                file@,
                default_load_segment(start),
                WordSum::Bytewise,
                start,
            ),
    {
        Program::load(file, (start % 65536) as u16, WordSum::Bytewise, start)
    }

    /// The address where execution starts.
    pub fn start(&self) -> (start: u64)
        ensures
            start == self.entry(),
    {
        self.start
    }

    /// The relocated image.
    pub fn data(&self) -> (data: &[u8])
        ensures
            data@ == self.image(),
    {
        self.data.as_slice()
    }

    /// The header that the image came with.
    pub fn header(&self) -> (header: &Header)
        ensures
            *header == self.decoded_header(),
    {
        &self.header
    }
}

} // verus!
