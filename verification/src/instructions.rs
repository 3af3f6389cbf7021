//! The instruction decoder: one 16-bit big-endian word becomes the opcode
//! fields that the operation table reads.

use vstd::prelude::*;
use vstd::string::*;

verus! {

/// A decoded instruction word.
///
/// For the word `0xPXYN` the fields are `operation = P`, `x = X`, `y = Y`,
/// `n = N`, `nn = YN` and `nnn = XYN`.
#[derive(Clone, Copy, Debug, PartialEq, Eq, Structural)]
pub struct Instruction {
    pub operation: u8,
    pub x: u8,
    pub y: u8,
    pub n: u8,
    pub nn: u8,
    pub nnn: u16,
}

/// The fields of `word`, by division and remainder.
pub open spec fn decode_word(word: u16) -> Instruction {
    Instruction {
        operation: (word / 0x1000) as u8,
        x: ((word / 0x100) % 0x10) as u8,
        y: ((word / 0x10) % 0x10) as u8,
        n: (word % 0x10) as u8,
        nn: (word % 0x100) as u8,
        nnn: (word % 0x1000) as u16,
    }
}

/// The value of one hexadecimal digit, in either case; `None` for any
/// other character.
pub open spec fn hex_digit_value(c: char) -> Option<int> {
    if '0' <= c <= '9' {
        Some(c as int - '0' as int)
    } else if 'a' <= c <= 'f' {
        Some(c as int - 'a' as int + 10)
    } else if 'A' <= c <= 'F' {
        Some(c as int - 'A' as int + 10)
    } else {
        None
    }
}

/// Exactly four characters, each a hexadecimal digit.
pub open spec fn is_instruction_text(text: Seq<char>) -> bool {
    &&& text.len() == 4
    &&& forall|i: int| 0 <= i < 4 ==> hex_digit_value(#[trigger] text[i]) is Some
}

/// The word that four hexadecimal digits spell, most significant first.
pub open spec fn text_word(text: Seq<char>) -> int {
    hex_digit_value(text[0]).unwrap() * 0x1000 + hex_digit_value(text[1]).unwrap() * 0x100
        + hex_digit_value(text[2]).unwrap() * 0x10 + hex_digit_value(text[3]).unwrap()
}

/// The value of one hexadecimal digit.
fn hex_digit(c: char) -> (value: Option<u16>)
    ensures
        match value {
            Some(v) => hex_digit_value(c) == Some(v as int) && v < 0x10,
            None => hex_digit_value(c) is None,
        },
{
    if '0' <= c && c <= '9' {
        Some((c as u8 - '0' as u8) as u16)
    } else if 'a' <= c && c <= 'f' {
        Some((c as u8 - 'a' as u8 + 10) as u16)
    } else if 'A' <= c && c <= 'F' {
        Some((c as u8 - 'A' as u8 + 10) as u16)
    } else {
        None
    }
}

/// The upper-case hexadecimal digit for a value below sixteen.
pub open spec fn hex_upper(value: int) -> char {
    if value < 10 {
        ('0' as int + value) as char
    } else {
        ('A' as int + value - 10) as char
    }
}

/// One upper-case hexadecimal digit, as text.
fn hex_text(value: u8) -> (text: &'static str)
    requires
        value < 0x10,
    ensures
        text@ == seq![hex_upper(value as int)],
{
    proof {
        reveal_strlit("0");
        reveal_strlit("1");
        reveal_strlit("2");
        reveal_strlit("3");
        reveal_strlit("4");
        reveal_strlit("5");
        reveal_strlit("6");
        reveal_strlit("7");
        reveal_strlit("8");
        reveal_strlit("9");
        reveal_strlit("A");
        reveal_strlit("B");
        reveal_strlit("C");
        reveal_strlit("D");
        reveal_strlit("E");
        reveal_strlit("F");
    }
    match value {
        0 => "0",
        1 => "1",
        2 => "2",
        3 => "3",
        4 => "4",
        5 => "5",
        6 => "6",
        7 => "7",
        8 => "8",
        9 => "9",
        10 => "A",
        11 => "B",
        12 => "C",
        13 => "D",
        14 => "E",
        _ => "F",
    }
}

impl Instruction {
    /// The fields fit their widths and agree with each other, as the fields
    /// of one word do.
    pub open spec fn wf(self) -> bool {
        &&& self.operation < 0x10
        &&& self.x < 0x10
        &&& self.y < 0x10
        &&& self.n < 0x10
        &&& self.nn == self.y * 0x10 + self.n
        &&& self.nnn == self.x * 0x100 + self.nn
    }

    /// The debug rendering: `op=P x=X y=Y n=N nn=YN nnn=XYN`, each capital
    /// letter one upper-case hexadecimal digit.
    pub open spec fn rendering(self) -> Seq<char> {
        "op="@ + seq![hex_upper(self.operation as int)]
            + " x="@ + seq![hex_upper(self.x as int)]
            + " y="@ + seq![hex_upper(self.y as int)]
            + " n="@ + seq![hex_upper(self.n as int)]
            + " nn="@ + seq![hex_upper(self.nn as int / 0x10)]
            + seq![hex_upper(self.nn as int % 0x10)]
            + " nnn="@ + seq![hex_upper(self.nnn as int / 0x100)]
            + seq![hex_upper(self.nnn as int / 0x10 % 0x10)]
            + seq![hex_upper(self.nnn as int % 0x10)]
    }

    /// The word that the fields were taken from.
    pub open spec fn word(self) -> int {
        self.operation * 0x1000 + self.nnn
    }

    /// Decodes one instruction word. Every word decodes.
    pub fn decode(word: u16) -> (instr: Instruction)
        ensures
            instr == decode_word(word),
            instr.wf(),
            instr.word() == word,
    {
        assert((word >> 12u16) & 0xF == word / 0x1000) by (bit_vector);
        assert((word >> 8u16) & 0xF == (word / 0x100) % 0x10) by (bit_vector);
        assert((word >> 4u16) & 0xF == (word / 0x10) % 0x10) by (bit_vector);
        assert(word & 0xF == word % 0x10) by (bit_vector);
        assert(word & 0xFF == word % 0x100) by (bit_vector);
        assert(word & 0xFFF == word % 0x1000) by (bit_vector);
        Instruction {
            operation: ((word >> 12u16) & 0xF) as u8,
            x: ((word >> 8u16) & 0xF) as u8,
            y: ((word >> 4u16) & 0xF) as u8,
            n: (word & 0xF) as u8,
            nn: (word & 0xFF) as u8,
            nnn: word & 0xFFF,
        }
    }

    /// Renders the fields for debugging, in upper-case hexadecimal:
    /// one digit each for `op`, `x`, `y` and `n`, two for `nn`, three for
    /// `nnn`.
    pub fn to_string(&self) -> (text: String)
        requires
            self.wf(),
        ensures
            text@ == self.rendering(),
    {
        let mut text = String::new();
        text.append("op=");
        assert(text@ =~= "op="@);
        text.append(hex_text(self.operation));
        text.append(" x=");
        text.append(hex_text(self.x));
        text.append(" y=");
        text.append(hex_text(self.y));
        text.append(" n=");
        text.append(hex_text(self.n));
        text.append(" nn=");
        text.append(hex_text(self.nn / 0x10));
        text.append(hex_text(self.nn % 0x10));
        text.append(" nnn=");
        text.append(hex_text((self.nnn / 0x100) as u8));
        text.append(hex_text((self.nnn / 0x10 % 0x10) as u8));
        text.append(hex_text((self.nnn % 0x10) as u8));
        text
    }

    /// Decodes an instruction written as four hexadecimal digits, such as
    /// `"A2F0"`. Any other text is rejected.
    pub fn from_str(val: &str) -> (parsed: Option<Instruction>)
        ensures
            match parsed {
                Some(instr) => is_instruction_text(val@) && instr == decode_word(
                    text_word(val@) as u16,
                ) && instr.wf(),
                None => !is_instruction_text(val@),
            },
    {
        if val.unicode_len() != 4 {
            return None;
        }
        let digits = (
            hex_digit(val.get_char(0)),
            hex_digit(val.get_char(1)),
            hex_digit(val.get_char(2)),
            hex_digit(val.get_char(3)),
        );
        match digits {
            (Some(d0), Some(d1), Some(d2), Some(d3)) => {
                Some(Instruction::decode(d0 * 0x1000 + d1 * 0x100 + d2 * 0x10 + d3))
            },
            _ => None,
        }
    }
}

/// Every word decodes to well-formed fields, and the fields give the word
/// back.
pub proof fn lemma_decode_wf(word: u16)
    ensures
        decode_word(word).wf(),
        decode_word(word).word() == word,
{
}

/// Four digits below sixteen are the digits of the word they spell.
proof fn lemma_digits_of_word(p: u16, x: u16, y: u16, n: u16)
    by (bit_vector)
    requires
        p < 0x10,
        x < 0x10,
        y < 0x10,
        n < 0x10,
    ensures
        ({
            let word = (p * 0x1000 + x * 0x100 + y * 0x10 + n) as u16;
            &&& word == p * 0x1000 + x * 0x100 + y * 0x10 + n
            &&& word / 0x1000 == p
            &&& word / 0x100 % 0x10 == x
            &&& word / 0x10 % 0x10 == y
            &&& word % 0x10 == n
            &&& word % 0x100 == y * 0x10 + n
            &&& word % 0x1000 == x * 0x100 + y * 0x10 + n
        }),
{
}

/// Well-formed fields are the decoding of the word they spell, and of no
/// other.
pub proof fn lemma_wf_is_decoded(instr: Instruction)
    requires
        instr.wf(),
    ensures
        0 <= instr.word() <= u16::MAX,
        decode_word(instr.word() as u16) == instr,
        forall|word: u16| decode_word(word) == instr ==> word == instr.word(),
{
    lemma_digits_of_word(instr.operation as u16, instr.x as u16, instr.y as u16, instr.n as u16);
    assert forall|word: u16| decode_word(word) == instr implies word == instr.word() by {
        lemma_decode_wf(word);
    }
}

} // verus!
