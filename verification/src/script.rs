//! The text layer of the debugger's command language: lines, white space,
//! words and hexadecimal addresses, all on the bytes of UTF-8 text.

use vstd::prelude::*;
use vstd::slice::slice_subrange;

verus! {

/// Whether `byte` is a white-space character of one byte: a blank, or one of
/// the controls from horizontal tab to carriage return.
pub open spec fn is_space(byte: u8) -> bool {
    byte == 0x20 || (0x09 <= byte && byte <= 0x0D)
}

/// Whether the two bytes encode a white-space character: next line (U+0085)
/// or no-break space (U+00A0).
pub open spec fn is_space_pair(first: u8, second: u8) -> bool {
    first == 0xC2 && (second == 0x85 || second == 0xA0)
}

/// Whether the three bytes encode a white-space character: the ogham space
/// mark (U+1680), one of the spaces from en quad to hair space (U+2000 to
/// U+200A), the line or the paragraph separator (U+2028, U+2029), the narrow
/// no-break space (U+202F), the medium mathematical space (U+205F) or the
/// ideographic space (U+3000).
pub open spec fn is_space_triple(first: u8, second: u8, third: u8) -> bool {
    ||| first == 0xE1 && second == 0x9A && third == 0x80
    ||| first == 0xE2 && second == 0x80 && (0x80 <= third && third <= 0x8A)
    ||| first == 0xE2 && second == 0x80 && (third == 0xA8 || third == 0xA9 || third == 0xAF)
    ||| first == 0xE2 && second == 0x81 && third == 0x9F
    ||| first == 0xE3 && second == 0x80 && third == 0x80
}

/// The number of bytes of the white-space character whose UTF-8 encoding
/// begins at index `at` of `text`, or zero if none begins there.
///
/// White space is what Unicode gives the property `White_Space`.
pub open spec fn space_len(text: Seq<u8>, at: int) -> int {
    if at < 0 || at >= text.len() {
        0
    } else if is_space(text[at]) {
        1
    } else if at + 1 < text.len() && is_space_pair(text[at], text[at + 1]) {
        2
    } else if at + 2 < text.len() && is_space_triple(text[at], text[at + 1], text[at + 2]) {
        3
    } else {
        0
    }
}

/// The number of bytes of the white-space character whose UTF-8 encoding
/// ends just before index `upto` of `text`, or zero if none ends there.
pub open spec fn space_len_before(text: Seq<u8>, upto: int) -> int {
    if space_len(text, upto - 1) == 1 {
        1
    } else if space_len(text, upto - 2) == 2 {
        2
    } else if space_len(text, upto - 3) == 3 {
        3
    } else {
        0
    }
}

/// The first index at or after `from` at which no white-space character
/// begins, when the white-space characters from `from` on are passed over;
/// the length of `text` if white space fills the rest.
pub open spec fn skip_spaces(text: Seq<u8>, from: int) -> int
    decreases text.len() - from,
{
    if space_len(text, from) > 0 {
        skip_spaces(text, from + space_len(text, from))
    } else {
        from
    }
}

/// The first index at or after `from` at which a white-space character
/// begins, or the length of `text` if there is none.
pub open spec fn skip_word(text: Seq<u8>, from: int) -> int
    decreases text.len() - from,
{
    if 0 <= from < text.len() && space_len(text, from) == 0 {
        skip_word(text, from + 1)
    } else {
        from
    }
}

/// The first index at or after `from` that holds `byte`, or the length of
/// `text` if there is none.
pub open spec fn find_byte(text: Seq<u8>, byte: u8, from: int) -> int
    decreases text.len() - from,
{
    if 0 <= from < text.len() && text[from] != byte {
        find_byte(text, byte, from + 1)
    } else {
        from
    }
}

/// The end of `text[..upto]` once the white-space characters that end there
/// are dropped.
pub open spec fn text_end(text: Seq<u8>, upto: int) -> int
    decreases upto,
{
    if space_len_before(text, upto) > 0 {
        text_end(text, upto - space_len_before(text, upto))
    } else {
        upto
    }
}

/// `text` without leading and trailing white space.
pub open spec fn trimmed(text: Seq<u8>) -> Seq<u8> {
    let start = skip_spaces(text, 0);
    let end = text_end(text, text.len() as int);
    if start < end {
        text.subrange(start, end)
    } else {
        Seq::empty()
    }
}

/// Whether `text` begins with `prefix`.
pub open spec fn has_prefix(text: Seq<u8>, prefix: Seq<u8>) -> bool {
    prefix.len() <= text.len() && text.take(prefix.len() as int) == prefix
}

/// The second word of `text`, where words are separated by white space; empty
/// if there is none.
pub open spec fn second_word(text: Seq<u8>) -> Seq<u8> {
    let start = skip_spaces(text, skip_word(text, skip_spaces(text, 0)));
    text.subrange(start, skip_word(text, start))
}

/// The lines that remain from index `at` on, when the line that is being read
/// began at `line_start`. A line ends at a line feed or at the end of the
/// text; the line feed is not part of it, and nothing follows a final one.
pub open spec fn lines_from(text: Seq<u8>, line_start: int, at: int) -> Seq<Seq<u8>>
    decreases text.len() - at,
{
    if at < 0 || at >= text.len() {
        if line_start < text.len() {
            seq![text.subrange(line_start, text.len() as int)]
        } else {
            Seq::empty()
        }
    } else if text[at] == 0x0A {
        seq![text.subrange(line_start, at)] + lines_from(text, at + 1, at + 1)
    } else {
        lines_from(text, line_start, at + 1)
    }
}

/// The lines of `text`.
pub open spec fn lines_of(text: Seq<u8>) -> Seq<Seq<u8>> {
    lines_from(text, 0, 0)
}

/// The contents of a list of borrowed lines.
pub open spec fn line_views(lines: Seq<&[u8]>) -> Seq<Seq<u8>> {
    Seq::new(lines.len(), |index: int| lines[index]@)
}

/// Whether `byte` is a hexadecimal digit, in either case.
pub open spec fn is_hex_digit(byte: u8) -> bool {
    (0x30 <= byte && byte <= 0x39) || (0x41 <= byte && byte <= 0x46) || (0x61 <= byte && byte
        <= 0x66)
}

/// The value of a hexadecimal digit; zero for any other byte.
pub open spec fn digit_value(byte: u8) -> int {
    if 0x30 <= byte && byte <= 0x39 {
        byte - 0x30
    } else if 0x41 <= byte && byte <= 0x46 {
        byte - 0x41 + 10
    } else if 0x61 <= byte && byte <= 0x66 {
        byte - 0x61 + 10
    } else {
        0
    }
}

/// The number that `digits` spell in base sixteen, most significant first.
pub open spec fn hex_value(digits: Seq<u8>) -> int
    decreases digits.len(),
{
    if digits.len() == 0 {
        0
    } else {
        16 * hex_value(digits.drop_last()) + digit_value(digits.last())
    }
}

/// Whether every byte of `digits` is a hexadecimal digit.
pub open spec fn all_hex(digits: Seq<u8>) -> bool {
    forall|index: int| 0 <= index < digits.len() ==> is_hex_digit(#[trigger] digits[index])
}

/// The number that a bare hexadecimal numeral denotes: at least one digit,
/// nothing but digits, and a value that fits in 64 bits.
pub open spec fn parse_hex(digits: Seq<u8>) -> Option<u64> {
    if digits.len() > 0 && all_hex(digits) && hex_value(digits) <= u64::MAX {
        Some(hex_value(digits) as u64)
    } else {
        None
    }
}

/// The flat address that `token` denotes: a bare hexadecimal number, or a
/// `segment:offset` pair of them, which stands for `segment * 16 + offset`.
pub open spec fn parse_address(token: Seq<u8>) -> Option<u64> {
    let colon = find_byte(token, 0x3A, 0);
    if colon < token.len() {
        match (parse_hex(token.take(colon)), parse_hex(token.skip(colon + 1))) {
            (Some(segment), Some(offset)) => if segment * 16 + offset <= u64::MAX {
                Some((segment * 16 + offset) as u64)
            } else {
                None
            },
            _ => None,
        }
    } else {
        parse_hex(token)
    }
}

/// Whether `byte` is a white-space character of one byte.
pub fn is_space_byte(byte: u8) -> (space: bool)
    ensures
        space == is_space(byte),
{
    byte == 0x20 || (0x09 <= byte && byte <= 0x0D)
}

fn is_pair(first: u8, second: u8) -> (space: bool)
    ensures
        space == is_space_pair(first, second),
{
    first == 0xC2 && (second == 0x85 || second == 0xA0)
}

fn is_triple(first: u8, second: u8, third: u8) -> (space: bool)
    ensures
        space == is_space_triple(first, second, third),
{
    (first == 0xE1 && second == 0x9A && third == 0x80) || (first == 0xE2 && second == 0x80 && (
    0x80 <= third && third <= 0x8A)) || (first == 0xE2 && second == 0x80 && (third == 0xA8
        || third == 0xA9 || third == 0xAF)) || (first == 0xE2 && second == 0x81 && third == 0x9F)
        || (first == 0xE3 && second == 0x80 && third == 0x80)
}

/// The number of bytes of the white-space character that begins at `at`, or
/// zero if none begins there.
pub fn space_at(text: &[u8], at: usize) -> (len: usize)
    ensures
        len == space_len(text@, at as int),
        len <= 3,
        len > 0 ==> at + len <= text@.len(),
{
    let end = text.len();
    if at >= end {
        0
    } else if is_space_byte(text[at]) {
        1
    } else if end - at > 1 && is_pair(text[at], text[at + 1]) {
        2
    } else if end - at > 2 && is_triple(text[at], text[at + 1], text[at + 2]) {
        3
    } else {
        0
    }
}

/// The number of bytes of the white-space character that ends just before
/// `upto`, or zero if none ends there.
pub fn space_before(text: &[u8], upto: usize) -> (len: usize)
    ensures
        len == space_len_before(text@, upto as int),
        len <= 3,
        len <= upto,
        len > 0 ==> upto <= text@.len(),
{
    if upto >= 1 && space_at(text, upto - 1) == 1 {
        1
    } else if upto >= 2 && space_at(text, upto - 2) == 2 {
        2
    } else if upto >= 3 && space_at(text, upto - 3) == 3 {
        3
    } else {
        0
    }
}

/// Whether two byte strings are equal.
pub fn same_bytes(left: &[u8], right: &[u8]) -> (same: bool)
    ensures
        same == (left@ == right@),
{
    if left.len() != right.len() {
        return false;
    }
    let mut index: usize = 0;
    while index < left.len()
        invariant
            left@.len() == right@.len(),
            index <= left@.len(),
            forall|at: int| 0 <= at < index ==> left@[at] == right@[at],
        decreases left@.len() - index,
    {
        if left[index] != right[index] {
            return false;
        }
        index += 1;
    }
    assert(left@ =~= right@);
    true
}

/// Whether `text` begins with `prefix`.
pub fn starts_with(text: &[u8], prefix: &[u8]) -> (found: bool)
    ensures
        found == has_prefix(text@, prefix@),
{
    if prefix.len() > text.len() {
        return false;
    }
    let head = slice_subrange(text, 0, prefix.len());
    assert(head@ =~= text@.take(prefix@.len() as int));
    same_bytes(head, prefix)
}

fn scan_spaces(text: &[u8], from: usize) -> (at: usize)
    requires
        from <= text@.len(),
    ensures
        at == skip_spaces(text@, from as int),
        from <= at <= text@.len(),
{
    let mut at = from;
    loop
        invariant
            from <= at <= text@.len(),
            skip_spaces(text@, from as int) == skip_spaces(text@, at as int),
        ensures
            at == skip_spaces(text@, from as int),
        decreases text@.len() - at,
    {
        let len = space_at(text, at);
        if len == 0 {
            break ;
        }
        assert(text@.len() == text.len());
        at += len;
    }
    at
}

fn scan_word(text: &[u8], from: usize) -> (at: usize)
    requires
        from <= text@.len(),
    ensures
        at == skip_word(text@, from as int),
        from <= at <= text@.len(),
{
    let mut at = from;
    while at < text.len() && space_at(text, at) == 0
        invariant
            from <= at <= text@.len(),
            skip_word(text@, from as int) == skip_word(text@, at as int),
        decreases text@.len() - at,
    {
        at += 1;
    }
    at
}

fn scan_byte(text: &[u8], byte: u8, from: usize) -> (at: usize)
    requires
        from <= text@.len(),
    ensures
        at == find_byte(text@, byte, from as int),
        from <= at <= text@.len(),
{
    let mut at = from;
    while at < text.len() && text[at] != byte
        invariant
            from <= at <= text@.len(),
            find_byte(text@, byte, from as int) == find_byte(text@, byte, at as int),
        decreases text@.len() - at,
    {
        at += 1;
    }
    at
}

/// Drops leading and trailing white space.
pub fn trim<'a>(text: &'a [u8]) -> (inner: &'a [u8])
    ensures
        inner@ == trimmed(text@),
{
    let start = scan_spaces(text, 0);
    let mut end = text.len();
    loop
        invariant
            end <= text@.len(),
            text_end(text@, text@.len() as int) == text_end(text@, end as int),
        ensures
            end <= text@.len(),
            end == text_end(text@, text@.len() as int),
        decreases end,
    {
        let len = space_before(text, end);
        if len == 0 {
            break ;
        }
        end -= len;
    }
    if start < end {
        slice_subrange(text, start, end)
    } else {
        let inner = slice_subrange(text, 0, 0);
        assert(inner@ =~= Seq::<u8>::empty());
        inner
    }
}

/// The second white-space separated word of `text`; empty if there is none.
pub fn word_after_first<'a>(text: &'a [u8]) -> (word: &'a [u8])
    ensures
        word@ == second_word(text@),
{
    let first = scan_spaces(text, 0);
    let gap = scan_word(text, first);
    let start = scan_spaces(text, gap);
    let end = scan_word(text, start);
    slice_subrange(text, start, end)
}

/// Splits `text` into its lines.
pub fn split_lines<'a>(text: &'a [u8]) -> (lines: Vec<&'a [u8]>)
    ensures
        line_views(lines@) == lines_of(text@),
{
    let mut lines: Vec<&'a [u8]> = Vec::new();
    let mut line_start: usize = 0;
    let mut at: usize = 0;
    assert(line_views(lines@) =~= Seq::<Seq<u8>>::empty());
    while at < text.len()
        invariant
            line_start <= at <= text@.len(),
            lines_of(text@) == line_views(lines@) + lines_from(
                text@,
                line_start as int,
                at as int,
            ),
        decreases text@.len() - at,
    {
        if text[at] == 0x0A {
            let ghost before = line_views(lines@);
            let line = slice_subrange(text, line_start, at);
            lines.push(line);
            assert(line_views(lines@) =~= before + seq![line@]);
            at += 1;
            line_start = at;
        } else {
            at += 1;
        }
    }
    if line_start < text.len() {
        let ghost before = line_views(lines@);
        let line = slice_subrange(text, line_start, text.len());
        lines.push(line);
        assert(line_views(lines@) =~= before + seq![line@]);
    }
    lines
}

/// The hexadecimal value of a prefix never exceeds that of the whole.
proof fn lemma_hex_value_prefix(digits: Seq<u8>, count: int)
    requires
        0 <= count <= digits.len(),
    ensures
        0 <= hex_value(digits.take(count)) <= hex_value(digits),
    decreases digits.len(),
{
    if count == digits.len() {
        assert(digits.take(count) =~= digits);
        if digits.len() > 0 {
            lemma_hex_value_prefix(digits.drop_last(), count - 1);
        }
    } else {
        lemma_hex_value_prefix(digits.drop_last(), count);
        assert(digits.drop_last().take(count) =~= digits.take(count));
    }
}

fn hex_digit(byte: u8) -> (digit: Option<u8>)
    ensures
        match digit {
            Some(value) => is_hex_digit(byte) && value == digit_value(byte),
            None => !is_hex_digit(byte),
        },
{
    if 0x30 <= byte && byte <= 0x39 {
        Some(byte - 0x30)
    } else if 0x41 <= byte && byte <= 0x46 {
        Some(byte - 0x41 + 10)
    } else if 0x61 <= byte && byte <= 0x66 {
        Some(byte - 0x61 + 10)
    } else {
        None
    }
}

/// Reads a bare hexadecimal numeral.
pub fn read_hex(digits: &[u8]) -> (value: Option<u64>)
    ensures
        value == parse_hex(digits@),
{
    if digits.len() == 0 {
        return None;
    }
    let mut value: u64 = 0;
    let mut index: usize = 0;
    assert(digits@.take(0) =~= Seq::<u8>::empty());
    while index < digits.len()
        invariant
            index <= digits@.len(),
            all_hex(digits@.take(index as int)),
            value == hex_value(digits@.take(index as int)),
        decreases digits@.len() - index,
    {
        let ghost next = digits@.take(index as int + 1);
        proof {
            assert(next.drop_last() =~= digits@.take(index as int));
            assert(next.last() == digits@[index as int]);
            lemma_hex_value_prefix(digits@, index as int + 1);
        }
        let digit = match hex_digit(digits[index]) {
            Some(digit) => digit,
            None => {
                return None;
            },
        };
        if value > (u64::MAX - digit as u64) / 16 {
            return None;
        }
        value = value * 16 + digit as u64;
        index += 1;
    }
    assert(digits@.take(index as int) =~= digits@);
    Some(value)
}

/// Reads an address: a bare hexadecimal number or a `segment:offset` pair.
pub fn read_address(token: &[u8]) -> (address: Option<u64>)
    ensures
        address == parse_address(token@),
{
    let colon = scan_byte(token, 0x3A, 0);
    if colon < token.len() {
        let head = slice_subrange(token, 0, colon);
        let tail = slice_subrange(token, colon + 1, token.len());
        assert(head@ =~= token@.take(colon as int));
        assert(tail@ =~= token@.skip(colon as int + 1));
        match (read_hex(head), read_hex(tail)) {
            (Some(segment), Some(offset)) => {
                if segment > (u64::MAX - offset) / 16 {
                    None
                } else {
                    Some(segment * 16 + offset)
                }
            },
            _ => None,
        }
    } else {
        read_hex(token)
    }
}

} // verus!
