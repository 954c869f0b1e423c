//! Keyboard input: translating set-1 scancodes into characters and deciding
//! which scancodes read from the controller are reported.
use vstd::prelude::*;

verus! {

/// The character that a set-1 "make" scancode stands for on a US layout,
/// or `None` for a release code or a key without a character.
pub open spec fn scancode_char(scancode: u8) -> Option<char> {
    if scancode >= 0x80 {
        None
    } else {
        match scancode {
            0x01 => Some('\u{1b}'),
            0x02 => Some('1'),
            0x03 => Some('2'),
            0x04 => Some('3'),
            0x05 => Some('4'),
            0x06 => Some('5'),
            0x07 => Some('6'),
            0x08 => Some('7'),
            0x09 => Some('8'),
            0x0A => Some('9'),
            0x0B => Some('0'),
            0x0C => Some('-'),
            0x0D => Some('='),
            0x0E => Some('\u{0008}'),
            0x0F => Some('\t'),
            0x10 => Some('q'),
            0x11 => Some('w'),
            0x12 => Some('e'),
            0x13 => Some('r'),
            0x14 => Some('t'),
            0x15 => Some('y'),
            0x16 => Some('u'),
            0x17 => Some('i'),
            0x18 => Some('o'),
            0x19 => Some('p'),
            0x1A => Some('['),
            0x1B => Some(']'),
            0x1C => Some('\n'),
            0x1E => Some('a'),
            0x1F => Some('s'),
            0x20 => Some('d'),
            0x21 => Some('f'),
            0x22 => Some('g'),
            0x23 => Some('h'),
            0x24 => Some('j'),
            0x25 => Some('k'),
            0x26 => Some('l'),
            0x27 => Some(';'),
            0x28 => Some('\''),
            0x29 => Some('`'),
            0x2B => Some('\\'),
            0x2C => Some('z'),
            0x2D => Some('x'),
            0x2E => Some('c'),
            0x2F => Some('v'),
            0x30 => Some('b'),
            0x31 => Some('n'),
            0x32 => Some('m'),
            0x33 => Some(','),
            0x34 => Some('.'),
            0x35 => Some('/'),
            0x39 => Some(' '),
            _ => None,
        }
    }
}

/// Translates a scancode (set 1) into the character of its key.
/// Release codes (bit 7 set) and keys without a character give `None`.
pub fn scancode_to_char(scancode: u8) -> (r: Option<char>)
    ensures
        r == scancode_char(scancode),
{
    if scancode & 0x80 != 0 {
        assert(scancode >= 0x80) by (bit_vector)
            requires
                scancode & 0x80 != 0,
        ;
        return None;
    }
    assert(scancode < 0x80) by (bit_vector)
        requires
            scancode & 0x80 == 0,
    ;
    match scancode {
        0x01 => Some('\u{1b}'),
        0x02 => Some('1'),
        0x03 => Some('2'),
        0x04 => Some('3'),
        0x05 => Some('4'),
        0x06 => Some('5'),
        0x07 => Some('6'),
        0x08 => Some('7'),
        0x09 => Some('8'),
        0x0A => Some('9'),
        0x0B => Some('0'),
        0x0C => Some('-'),
        0x0D => Some('='),
        0x0E => Some('\u{0008}'),
        0x0F => Some('\t'),
        0x10 => Some('q'),
        0x11 => Some('w'),
        0x12 => Some('e'),
        0x13 => Some('r'),
        0x14 => Some('t'),
        0x15 => Some('y'),
        0x16 => Some('u'),
        0x17 => Some('i'),
        0x18 => Some('o'),
        0x19 => Some('p'),
        0x1A => Some('['),
        0x1B => Some(']'),
        0x1C => Some('\n'),
        0x1E => Some('a'),
        0x1F => Some('s'),
        0x20 => Some('d'),
        0x21 => Some('f'),
        0x22 => Some('g'),
        0x23 => Some('h'),
        0x24 => Some('j'),
        0x25 => Some('k'),
        0x26 => Some('l'),
        0x27 => Some(';'),
        0x28 => Some('\''),
        0x29 => Some('`'),
        0x2B => Some('\\'),
        0x2C => Some('z'),
        0x2D => Some('x'),
        0x2E => Some('c'),
        0x2F => Some('v'),
        0x30 => Some('b'),
        0x31 => Some('n'),
        0x32 => Some('m'),
        0x33 => Some(','),
        0x34 => Some('.'),
        0x35 => Some('/'),
        0x39 => Some(' '),
        _ => None,
    }
}

/// The key code that a character comes from: the inverse of
/// [`scancode_char`] on the characters that it gives.
pub open spec fn char_scancode(c: char) -> u8 {
    match c {
        '\u{1b}' => 0x01,
        '1' => 0x02,
        '2' => 0x03,
        '3' => 0x04,
        '4' => 0x05,
        '5' => 0x06,
        '6' => 0x07,
        '7' => 0x08,
        '8' => 0x09,
        '9' => 0x0A,
        '0' => 0x0B,
        '-' => 0x0C,
        '=' => 0x0D,
        '\u{0008}' => 0x0E,
        '\t' => 0x0F,
        'q' => 0x10,
        'w' => 0x11,
        'e' => 0x12,
        'r' => 0x13,
        't' => 0x14,
        'y' => 0x15,
        'u' => 0x16,
        'i' => 0x17,
        'o' => 0x18,
        'p' => 0x19,
        '[' => 0x1A,
        ']' => 0x1B,
        '\n' => 0x1C,
        'a' => 0x1E,
        's' => 0x1F,
        'd' => 0x20,
        'f' => 0x21,
        'g' => 0x22,
        'h' => 0x23,
        'j' => 0x24,
        'k' => 0x25,
        'l' => 0x26,
        ';' => 0x27,
        '\'' => 0x28,
        '`' => 0x29,
        '\\' => 0x2B,
        'z' => 0x2C,
        'x' => 0x2D,
        'c' => 0x2E,
        'v' => 0x2F,
        'b' => 0x30,
        'n' => 0x31,
        'm' => 0x32,
        ',' => 0x33,
        '.' => 0x34,
        '/' => 0x35,
        ' ' => 0x39,
        _ => 0,
    }
}

/// A release code (bit 7 set) never gives a character.
pub proof fn lemma_release_gives_no_char(scancode: u8)
    requires
        scancode & 0x80 != 0,
    ensures
        scancode_char(scancode) is None,
{
    assert(scancode >= 0x80) by (bit_vector)
        requires
            scancode & 0x80 != 0,
    ;
}

/// Every character that a scancode gives is ASCII, and the scancode can be
/// told back from it.
pub proof fn lemma_scancode_char_inverse(scancode: u8)
    requires
        scancode_char(scancode) is Some,
    ensures
        (scancode_char(scancode)->0 as u32) < 128,
        char_scancode(scancode_char(scancode)->0) == scancode,
{
}

/// Two keys never give the same character.
pub proof fn lemma_scancode_char_injective(a: u8, b: u8)
    requires
        scancode_char(a) is Some,
        scancode_char(a) == scancode_char(b),
    ensures
        a == b,
{
    lemma_scancode_char_inverse(a);
    lemma_scancode_char_inverse(b);
}

/// Bit 0 of the controller's status register: the output buffer holds a
/// byte to read.
pub fn output_buffer_full(status: u8) -> (r: bool)
    ensures
        r == (status & 1 != 0),
{
    status & 1 != 0
}

/// The codes that the controller sends about itself (acknowledge, echo,
/// self-test passed, ...) rather than about a key.
pub open spec fn is_controller_code(scancode: u8) -> bool {
    scancode == 0 || scancode == 0xa0 || scancode == 0xaa || scancode == 0xee || scancode == 0xfa
}

/// A scancode that is reported: the code and its character, if any.
#[derive(Debug, Clone, Copy, PartialEq, Eq, Structural)]
pub struct KeyPress {
    pub scancode: u8,
    pub key: Option<char>,
}

/// What the keyboard handler makes of `scancode` when the last reported
/// code was `last`: the new last code, and the report if there is one.
/// Controller codes and a repeat of the last code are not reported.
pub open spec fn key_step(last: u8, scancode: u8) -> (u8, Option<KeyPress>) {
    if is_controller_code(scancode) || scancode == last {
        (last, None)
    } else {
        (scancode, Some(KeyPress { scancode, key: scancode_char(scancode) }))
    }
}

/// The keyboard handler's memory: the last scancode that it reported.
pub struct KeyboardState {
    last_scancode: u8,
}

impl View for KeyboardState {
    type V = u8;

    closed spec fn view(&self) -> u8 {
        self.last_scancode
    }
}

impl KeyboardState {
    /// A handler that has reported nothing yet (its last code is 0).
    pub fn new() -> (r: Self)
        ensures
            r@ == 0,
    {
        KeyboardState { last_scancode: 0 }
    }

    /// Handles a scancode read from the controller: reports it, with its
    /// character, unless it is a controller code or the code reported last.
    pub fn process_scancode(&mut self, scancode: u8) -> (r: Option<KeyPress>)
        ensures
            (final(self)@, r) == key_step(old(self)@, scancode),
            r is Some <==> !is_controller_code(scancode) && scancode != old(self)@,
            r is Some ==> r->0.scancode == scancode && r->0.key == scancode_char(scancode)
                && final(self)@ == scancode,
            r is None ==> final(self)@ == old(self)@,
    {
        if scancode != 0 && scancode != 0xa0 && scancode != 0xaa && scancode != 0xee && scancode
            != 0xfa {
            let last = self.last_scancode;
            if scancode != last {
                self.last_scancode = scancode;
                return Some(KeyPress { scancode, key: scancode_to_char(scancode) });
            }
        }
        None
    }
}

/// A scancode that was just reported is not reported again when it comes
/// a second time in a row.
pub proof fn lemma_repeat_not_reported(last: u8, scancode: u8)
    ensures
        key_step(key_step(last, scancode).0, scancode).1 is None,
{
}

/// A scancode is reported exactly when it is no controller code and not
/// the code reported last; a report carries the scancode itself and the
/// very character that the scancode table gives for it (control keys such
/// as Enter, Esc, Backspace and Tab included), and the code becomes the
/// last one. Without a report nothing changes.
pub proof fn lemma_report_carries_table_char(last: u8, scancode: u8)
    ensures
        key_step(last, scancode).1 is Some <==> !is_controller_code(scancode) && scancode != last,
        key_step(last, scancode).1 is Some ==> key_step(last, scancode).1->0.scancode == scancode
            && key_step(last, scancode).1->0.key == scancode_char(scancode) && key_step(
            last,
            scancode,
        ).0 == scancode,
        key_step(last, scancode).1 is None ==> key_step(last, scancode).0 == last,
{
}

/// The control keys keep their characters: Esc is `\u{1b}`, Backspace is
/// `\u{8}`, Tab is `\t` and Enter is `\n`, and no other key gives a character
/// below the space.
pub proof fn lemma_control_key_chars(scancode: u8)
    ensures
        scancode_char(scancode) is Some && (scancode_char(scancode)->0 as u32) < 0x20 <==> (
        scancode == 0x01 || scancode == 0x0E || scancode == 0x0F || scancode == 0x1C),
        scancode == 0x01 ==> scancode_char(scancode) == Some('\u{1b}'),
        scancode == 0x0E ==> scancode_char(scancode) == Some('\u{8}'),
        scancode == 0x0F ==> scancode_char(scancode) == Some('\t'),
        scancode == 0x1C ==> scancode_char(scancode) == Some('\n'),
{
}

/// Every digit and every lowercase letter has a key: the key that
/// `char_scancode` names gives it back.
pub proof fn lemma_letters_and_digits_have_keys(c: char)
    requires
        ('a' <= c && c <= 'z') || ('0' <= c && c <= '9'),
    ensures
        scancode_char(char_scancode(c)) == Some(c),
{
}

/// The digit keys are the codes 0x02 to 0x0B: 0x02 to 0x0A give '1' to '9'
/// in order, and 0x0B gives '0'.
pub proof fn lemma_digit_row(d: u8)
    requires
        d < 9,
    ensures
        scancode_char((0x02 + d) as u8) == Some(char_of_digit((d + 1) as u8)),
        scancode_char(0x0B) == Some('0'),
{
}

/// The character of a decimal digit below ten.
pub open spec fn char_of_digit(d: u8) -> char {
    ((0x30 + d) as u32) as char
}

/// A controller code is never reported and leaves the handler as it was.
pub proof fn lemma_controller_code_ignored(last: u8, scancode: u8)
    requires
        is_controller_code(scancode),
    ensures
        key_step(last, scancode) == (last, None::<KeyPress>),
{
}

} // verus!
