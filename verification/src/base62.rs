//! Base-62 numbers: the slugs that stand for stored URLs.
//!
//! A `Base62` holds its digits least significant first, and is written with
//! the characters `0-9`, `a-z` and `A-Z` in that same order.

use vstd::arithmetic::power::{lemma_pow_increases, pow};
use vstd::prelude::*;

use crate::text::{is_blank, is_white_space, lemma_trimmed_empty, push_char, trim};

verus! {

/// One digit of a base-62 number. The variants stand in the order of their
/// values: `Digit0` to `Digit9` are worth 0 to 9, `Digita` to `Digitz` 10 to 35,
/// `DigitA` to `DigitZ` 36 to 61.
#[derive(Debug, Clone, Copy, PartialEq, Eq, Structural)]
pub enum Digit {
    Digit0, Digit1, Digit2, Digit3, Digit4, Digit5, Digit6, Digit7, Digit8,
    Digit9, Digita, Digitb, Digitc, Digitd, Digite, Digitf, Digitg, Digith,
    Digiti, Digitj, Digitk, Digitl, Digitm, Digitn, Digito, Digitp, Digitq,
    Digitr, Digits, Digitt, Digitu, Digitv, Digitw, Digitx, Digity, Digitz,
    DigitA, DigitB, DigitC, DigitD, DigitE, DigitF, DigitG, DigitH, DigitI,
    DigitJ, DigitK, DigitL, DigitM, DigitN, DigitO, DigitP, DigitQ, DigitR,
    DigitS, DigitT, DigitU, DigitV, DigitW, DigitX, DigitY, DigitZ,
}

impl Digit {
    /// What the digit is worth, from 0 to 61.
    pub open spec fn value(self) -> nat {
        match self {
            Digit::Digit0 => 0,
            Digit::Digit1 => 1,
            Digit::Digit2 => 2,
            Digit::Digit3 => 3,
            Digit::Digit4 => 4,
            Digit::Digit5 => 5,
            Digit::Digit6 => 6,
            Digit::Digit7 => 7,
            Digit::Digit8 => 8,
            Digit::Digit9 => 9,
            Digit::Digita => 10,
            Digit::Digitb => 11,
            Digit::Digitc => 12,
            Digit::Digitd => 13,
            Digit::Digite => 14,
            Digit::Digitf => 15,
            Digit::Digitg => 16,
            Digit::Digith => 17,
            Digit::Digiti => 18,
            Digit::Digitj => 19,
            Digit::Digitk => 20,
            Digit::Digitl => 21,
            Digit::Digitm => 22,
            Digit::Digitn => 23,
            Digit::Digito => 24,
            Digit::Digitp => 25,
            Digit::Digitq => 26,
            Digit::Digitr => 27,
            Digit::Digits => 28,
            Digit::Digitt => 29,
            Digit::Digitu => 30,
            Digit::Digitv => 31,
            Digit::Digitw => 32,
            Digit::Digitx => 33,
            Digit::Digity => 34,
            Digit::Digitz => 35,
            Digit::DigitA => 36,
            Digit::DigitB => 37,
            Digit::DigitC => 38,
            Digit::DigitD => 39,
            Digit::DigitE => 40,
            Digit::DigitF => 41,
            Digit::DigitG => 42,
            Digit::DigitH => 43,
            Digit::DigitI => 44,
            Digit::DigitJ => 45,
            Digit::DigitK => 46,
            Digit::DigitL => 47,
            Digit::DigitM => 48,
            Digit::DigitN => 49,
            Digit::DigitO => 50,
            Digit::DigitP => 51,
            Digit::DigitQ => 52,
            Digit::DigitR => 53,
            Digit::DigitS => 54,
            Digit::DigitT => 55,
            Digit::DigitU => 56,
            Digit::DigitV => 57,
            Digit::DigitW => 58,
            Digit::DigitX => 59,
            Digit::DigitY => 60,
            Digit::DigitZ => 61,
        }
    }

    /// The character that writes the digit.
    pub open spec fn symbol(self) -> char {
        match self {
            Digit::Digit0 => '0',
            Digit::Digit1 => '1',
            Digit::Digit2 => '2',
            Digit::Digit3 => '3',
            Digit::Digit4 => '4',
            Digit::Digit5 => '5',
            Digit::Digit6 => '6',
            Digit::Digit7 => '7',
            Digit::Digit8 => '8',
            Digit::Digit9 => '9',
            Digit::Digita => 'a',
            Digit::Digitb => 'b',
            Digit::Digitc => 'c',
            Digit::Digitd => 'd',
            Digit::Digite => 'e',
            Digit::Digitf => 'f',
            Digit::Digitg => 'g',
            Digit::Digith => 'h',
            Digit::Digiti => 'i',
            Digit::Digitj => 'j',
            Digit::Digitk => 'k',
            Digit::Digitl => 'l',
            Digit::Digitm => 'm',
            Digit::Digitn => 'n',
            Digit::Digito => 'o',
            Digit::Digitp => 'p',
            Digit::Digitq => 'q',
            Digit::Digitr => 'r',
            Digit::Digits => 's',
            Digit::Digitt => 't',
            Digit::Digitu => 'u',
            Digit::Digitv => 'v',
            Digit::Digitw => 'w',
            Digit::Digitx => 'x',
            Digit::Digity => 'y',
            Digit::Digitz => 'z',
            Digit::DigitA => 'A',
            Digit::DigitB => 'B',
            Digit::DigitC => 'C',
            Digit::DigitD => 'D',
            Digit::DigitE => 'E',
            Digit::DigitF => 'F',
            Digit::DigitG => 'G',
            Digit::DigitH => 'H',
            Digit::DigitI => 'I',
            Digit::DigitJ => 'J',
            Digit::DigitK => 'K',
            Digit::DigitL => 'L',
            Digit::DigitM => 'M',
            Digit::DigitN => 'N',
            Digit::DigitO => 'O',
            Digit::DigitP => 'P',
            Digit::DigitQ => 'Q',
            Digit::DigitR => 'R',
            Digit::DigitS => 'S',
            Digit::DigitT => 'T',
            Digit::DigitU => 'U',
            Digit::DigitV => 'V',
            Digit::DigitW => 'W',
            Digit::DigitX => 'X',
            Digit::DigitY => 'Y',
            Digit::DigitZ => 'Z',
        }
    }

    /// The digit worth `v`, for `v` below 62.
    pub open spec fn with_value(v: u64) -> Digit {
        match v {
            0 => Digit::Digit0,
            1 => Digit::Digit1,
            2 => Digit::Digit2,
            3 => Digit::Digit3,
            4 => Digit::Digit4,
            5 => Digit::Digit5,
            6 => Digit::Digit6,
            7 => Digit::Digit7,
            8 => Digit::Digit8,
            9 => Digit::Digit9,
            10 => Digit::Digita,
            11 => Digit::Digitb,
            12 => Digit::Digitc,
            13 => Digit::Digitd,
            14 => Digit::Digite,
            15 => Digit::Digitf,
            16 => Digit::Digitg,
            17 => Digit::Digith,
            18 => Digit::Digiti,
            19 => Digit::Digitj,
            20 => Digit::Digitk,
            21 => Digit::Digitl,
            22 => Digit::Digitm,
            23 => Digit::Digitn,
            24 => Digit::Digito,
            25 => Digit::Digitp,
            26 => Digit::Digitq,
            27 => Digit::Digitr,
            28 => Digit::Digits,
            29 => Digit::Digitt,
            30 => Digit::Digitu,
            31 => Digit::Digitv,
            32 => Digit::Digitw,
            33 => Digit::Digitx,
            34 => Digit::Digity,
            35 => Digit::Digitz,
            36 => Digit::DigitA,
            37 => Digit::DigitB,
            38 => Digit::DigitC,
            39 => Digit::DigitD,
            40 => Digit::DigitE,
            41 => Digit::DigitF,
            42 => Digit::DigitG,
            43 => Digit::DigitH,
            44 => Digit::DigitI,
            45 => Digit::DigitJ,
            46 => Digit::DigitK,
            47 => Digit::DigitL,
            48 => Digit::DigitM,
            49 => Digit::DigitN,
            50 => Digit::DigitO,
            51 => Digit::DigitP,
            52 => Digit::DigitQ,
            53 => Digit::DigitR,
            54 => Digit::DigitS,
            55 => Digit::DigitT,
            56 => Digit::DigitU,
            57 => Digit::DigitV,
            58 => Digit::DigitW,
            59 => Digit::DigitX,
            60 => Digit::DigitY,
            _ => Digit::DigitZ,
        }
    }

    /// The digit that `c` writes, if any.
    pub open spec fn of_symbol(c: char) -> Option<Digit> {
        match c {
            '0' => Some(Digit::Digit0),
            '1' => Some(Digit::Digit1),
            '2' => Some(Digit::Digit2),
            '3' => Some(Digit::Digit3),
            '4' => Some(Digit::Digit4),
            '5' => Some(Digit::Digit5),
            '6' => Some(Digit::Digit6),
            '7' => Some(Digit::Digit7),
            '8' => Some(Digit::Digit8),
            '9' => Some(Digit::Digit9),
            'a' => Some(Digit::Digita),
            'b' => Some(Digit::Digitb),
            'c' => Some(Digit::Digitc),
            'd' => Some(Digit::Digitd),
            'e' => Some(Digit::Digite),
            'f' => Some(Digit::Digitf),
            'g' => Some(Digit::Digitg),
            'h' => Some(Digit::Digith),
            'i' => Some(Digit::Digiti),
            'j' => Some(Digit::Digitj),
            'k' => Some(Digit::Digitk),
            'l' => Some(Digit::Digitl),
            'm' => Some(Digit::Digitm),
            'n' => Some(Digit::Digitn),
            'o' => Some(Digit::Digito),
            'p' => Some(Digit::Digitp),
            'q' => Some(Digit::Digitq),
            'r' => Some(Digit::Digitr),
            's' => Some(Digit::Digits),
            't' => Some(Digit::Digitt),
            'u' => Some(Digit::Digitu),
            'v' => Some(Digit::Digitv),
            'w' => Some(Digit::Digitw),
            'x' => Some(Digit::Digitx),
            'y' => Some(Digit::Digity),
            'z' => Some(Digit::Digitz),
            'A' => Some(Digit::DigitA),
            'B' => Some(Digit::DigitB),
            'C' => Some(Digit::DigitC),
            'D' => Some(Digit::DigitD),
            'E' => Some(Digit::DigitE),
            'F' => Some(Digit::DigitF),
            'G' => Some(Digit::DigitG),
            'H' => Some(Digit::DigitH),
            'I' => Some(Digit::DigitI),
            'J' => Some(Digit::DigitJ),
            'K' => Some(Digit::DigitK),
            'L' => Some(Digit::DigitL),
            'M' => Some(Digit::DigitM),
            'N' => Some(Digit::DigitN),
            'O' => Some(Digit::DigitO),
            'P' => Some(Digit::DigitP),
            'Q' => Some(Digit::DigitQ),
            'R' => Some(Digit::DigitR),
            'S' => Some(Digit::DigitS),
            'T' => Some(Digit::DigitT),
            'U' => Some(Digit::DigitU),
            'V' => Some(Digit::DigitV),
            'W' => Some(Digit::DigitW),
            'X' => Some(Digit::DigitX),
            'Y' => Some(Digit::DigitY),
            'Z' => Some(Digit::DigitZ),
            _ => None,
        }
    }

    /// The digit worth `digit`, or `None` where `digit` is 62 or more.
    pub fn from_u64(digit: u64) -> (r: Option<Digit>)
        ensures
            r == (if digit < 62 { Some(Digit::with_value(digit)) } else { None::<Digit> }),
    {
        match digit {
            0 => Some(Digit::Digit0),
            1 => Some(Digit::Digit1),
            2 => Some(Digit::Digit2),
            3 => Some(Digit::Digit3),
            4 => Some(Digit::Digit4),
            5 => Some(Digit::Digit5),
            6 => Some(Digit::Digit6),
            7 => Some(Digit::Digit7),
            8 => Some(Digit::Digit8),
            9 => Some(Digit::Digit9),
            10 => Some(Digit::Digita),
            11 => Some(Digit::Digitb),
            12 => Some(Digit::Digitc),
            13 => Some(Digit::Digitd),
            14 => Some(Digit::Digite),
            15 => Some(Digit::Digitf),
            16 => Some(Digit::Digitg),
            17 => Some(Digit::Digith),
            18 => Some(Digit::Digiti),
            19 => Some(Digit::Digitj),
            20 => Some(Digit::Digitk),
            21 => Some(Digit::Digitl),
            22 => Some(Digit::Digitm),
            23 => Some(Digit::Digitn),
            24 => Some(Digit::Digito),
            25 => Some(Digit::Digitp),
            26 => Some(Digit::Digitq),
            27 => Some(Digit::Digitr),
            28 => Some(Digit::Digits),
            29 => Some(Digit::Digitt),
            30 => Some(Digit::Digitu),
            31 => Some(Digit::Digitv),
            32 => Some(Digit::Digitw),
            33 => Some(Digit::Digitx),
            34 => Some(Digit::Digity),
            35 => Some(Digit::Digitz),
            36 => Some(Digit::DigitA),
            37 => Some(Digit::DigitB),
            38 => Some(Digit::DigitC),
            39 => Some(Digit::DigitD),
            40 => Some(Digit::DigitE),
            41 => Some(Digit::DigitF),
            42 => Some(Digit::DigitG),
            43 => Some(Digit::DigitH),
            44 => Some(Digit::DigitI),
            45 => Some(Digit::DigitJ),
            46 => Some(Digit::DigitK),
            47 => Some(Digit::DigitL),
            48 => Some(Digit::DigitM),
            49 => Some(Digit::DigitN),
            50 => Some(Digit::DigitO),
            51 => Some(Digit::DigitP),
            52 => Some(Digit::DigitQ),
            53 => Some(Digit::DigitR),
            54 => Some(Digit::DigitS),
            55 => Some(Digit::DigitT),
            56 => Some(Digit::DigitU),
            57 => Some(Digit::DigitV),
            58 => Some(Digit::DigitW),
            59 => Some(Digit::DigitX),
            60 => Some(Digit::DigitY),
            61 => Some(Digit::DigitZ),
            _ => None,
        }
    }

    /// What the digit is worth.
    pub fn to_u64(&self) -> (r: u64)
        ensures
            r == self.value(),
    {
        match self {
            Digit::Digit0 => 0,
            Digit::Digit1 => 1,
            Digit::Digit2 => 2,
            Digit::Digit3 => 3,
            Digit::Digit4 => 4,
            Digit::Digit5 => 5,
            Digit::Digit6 => 6,
            Digit::Digit7 => 7,
            Digit::Digit8 => 8,
            Digit::Digit9 => 9,
            Digit::Digita => 10,
            Digit::Digitb => 11,
            Digit::Digitc => 12,
            Digit::Digitd => 13,
            Digit::Digite => 14,
            Digit::Digitf => 15,
            Digit::Digitg => 16,
            Digit::Digith => 17,
            Digit::Digiti => 18,
            Digit::Digitj => 19,
            Digit::Digitk => 20,
            Digit::Digitl => 21,
            Digit::Digitm => 22,
            Digit::Digitn => 23,
            Digit::Digito => 24,
            Digit::Digitp => 25,
            Digit::Digitq => 26,
            Digit::Digitr => 27,
            Digit::Digits => 28,
            Digit::Digitt => 29,
            Digit::Digitu => 30,
            Digit::Digitv => 31,
            Digit::Digitw => 32,
            Digit::Digitx => 33,
            Digit::Digity => 34,
            Digit::Digitz => 35,
            Digit::DigitA => 36,
            Digit::DigitB => 37,
            Digit::DigitC => 38,
            Digit::DigitD => 39,
            Digit::DigitE => 40,
            Digit::DigitF => 41,
            Digit::DigitG => 42,
            Digit::DigitH => 43,
            Digit::DigitI => 44,
            Digit::DigitJ => 45,
            Digit::DigitK => 46,
            Digit::DigitL => 47,
            Digit::DigitM => 48,
            Digit::DigitN => 49,
            Digit::DigitO => 50,
            Digit::DigitP => 51,
            Digit::DigitQ => 52,
            Digit::DigitR => 53,
            Digit::DigitS => 54,
            Digit::DigitT => 55,
            Digit::DigitU => 56,
            Digit::DigitV => 57,
            Digit::DigitW => 58,
            Digit::DigitX => 59,
            Digit::DigitY => 60,
            Digit::DigitZ => 61,
        }
    }

    /// The character that writes the digit.
    pub fn to_char(&self) -> (c: char)
        ensures
            c == self.symbol(),
    {
        match self {
            Digit::Digit0 => '0', Digit::Digit1 => '1', Digit::Digit2 => '2', Digit::Digit3 => '3', Digit::Digit4 => '4',
            Digit::Digit5 => '5', Digit::Digit6 => '6', Digit::Digit7 => '7', Digit::Digit8 => '8', Digit::Digit9 => '9',
            Digit::Digita => 'a', Digit::Digitb => 'b', Digit::Digitc => 'c', Digit::Digitd => 'd', Digit::Digite => 'e',
            Digit::Digitf => 'f', Digit::Digitg => 'g', Digit::Digith => 'h', Digit::Digiti => 'i', Digit::Digitj => 'j',
            Digit::Digitk => 'k', Digit::Digitl => 'l', Digit::Digitm => 'm', Digit::Digitn => 'n', Digit::Digito => 'o',
            Digit::Digitp => 'p', Digit::Digitq => 'q', Digit::Digitr => 'r', Digit::Digits => 's', Digit::Digitt => 't',
            Digit::Digitu => 'u', Digit::Digitv => 'v', Digit::Digitw => 'w', Digit::Digitx => 'x', Digit::Digity => 'y',
            Digit::Digitz => 'z', Digit::DigitA => 'A', Digit::DigitB => 'B', Digit::DigitC => 'C', Digit::DigitD => 'D',
            Digit::DigitE => 'E', Digit::DigitF => 'F', Digit::DigitG => 'G', Digit::DigitH => 'H', Digit::DigitI => 'I',
            Digit::DigitJ => 'J', Digit::DigitK => 'K', Digit::DigitL => 'L', Digit::DigitM => 'M', Digit::DigitN => 'N',
            Digit::DigitO => 'O', Digit::DigitP => 'P', Digit::DigitQ => 'Q', Digit::DigitR => 'R', Digit::DigitS => 'S',
            Digit::DigitT => 'T', Digit::DigitU => 'U', Digit::DigitV => 'V', Digit::DigitW => 'W', Digit::DigitX => 'X',
            Digit::DigitY => 'Y', Digit::DigitZ => 'Z',
        }
    }

    /// The digit that `digit` writes, or `None` where it writes none.
    pub fn from_char(digit: char) -> (r: Option<Digit>)
        ensures
            r == Digit::of_symbol(digit),
    {
        match digit {
            '0' => Some(Digit::Digit0), '1' => Some(Digit::Digit1), '2' => Some(Digit::Digit2), '3' => Some(Digit::Digit3),
            '4' => Some(Digit::Digit4), '5' => Some(Digit::Digit5), '6' => Some(Digit::Digit6), '7' => Some(Digit::Digit7),
            '8' => Some(Digit::Digit8), '9' => Some(Digit::Digit9), 'a' => Some(Digit::Digita), 'b' => Some(Digit::Digitb),
            'c' => Some(Digit::Digitc), 'd' => Some(Digit::Digitd), 'e' => Some(Digit::Digite), 'f' => Some(Digit::Digitf),
            'g' => Some(Digit::Digitg), 'h' => Some(Digit::Digith), 'i' => Some(Digit::Digiti), 'j' => Some(Digit::Digitj),
            'k' => Some(Digit::Digitk), 'l' => Some(Digit::Digitl), 'm' => Some(Digit::Digitm), 'n' => Some(Digit::Digitn),
            'o' => Some(Digit::Digito), 'p' => Some(Digit::Digitp), 'q' => Some(Digit::Digitq), 'r' => Some(Digit::Digitr),
            's' => Some(Digit::Digits), 't' => Some(Digit::Digitt), 'u' => Some(Digit::Digitu), 'v' => Some(Digit::Digitv),
            'w' => Some(Digit::Digitw), 'x' => Some(Digit::Digitx), 'y' => Some(Digit::Digity), 'z' => Some(Digit::Digitz),
            'A' => Some(Digit::DigitA), 'B' => Some(Digit::DigitB), 'C' => Some(Digit::DigitC), 'D' => Some(Digit::DigitD),
            'E' => Some(Digit::DigitE), 'F' => Some(Digit::DigitF), 'G' => Some(Digit::DigitG), 'H' => Some(Digit::DigitH),
            'I' => Some(Digit::DigitI), 'J' => Some(Digit::DigitJ), 'K' => Some(Digit::DigitK), 'L' => Some(Digit::DigitL),
            'M' => Some(Digit::DigitM), 'N' => Some(Digit::DigitN), 'O' => Some(Digit::DigitO), 'P' => Some(Digit::DigitP),
            'Q' => Some(Digit::DigitQ), 'R' => Some(Digit::DigitR), 'S' => Some(Digit::DigitS), 'T' => Some(Digit::DigitT),
            'U' => Some(Digit::DigitU), 'V' => Some(Digit::DigitV), 'W' => Some(Digit::DigitW), 'X' => Some(Digit::DigitX),
            'Y' => Some(Digit::DigitY), 'Z' => Some(Digit::DigitZ),
            _ => None,
        }
    }
}

/// Reading the symbol of a digit gives the digit back.
pub proof fn lemma_symbol_round_trip(d: Digit)
    ensures
        Digit::of_symbol(d.symbol()) == Some(d),
        !is_white_space(d.symbol()),
{
}

/// A character that reads as a digit is that digit's symbol.
pub proof fn lemma_of_symbol(c: char)
    ensures
        Digit::of_symbol(c) matches Some(d) ==> d.symbol() == c,
{
}

/// Values and digits correspond one to one below 62.
pub proof fn lemma_value(d: Digit, v: u64)
    ensures
        d.value() < 62,
        Digit::with_value(d.value() as u64) == d,
        v < 62 ==> Digit::with_value(v).value() == v,
{
}

/// The base of the numbers.
pub const BASE: u64 = 62;

/// The most digits that a number below 2 to the 64th needs: 62 to the 11th is past it.
pub const MAX_DIGITS: usize = 11;

/// What `digits`, least significant first, are worth.
pub open spec fn value_of(digits: Seq<Digit>) -> nat
    decreases digits.len(),
{
    if digits.len() == 0 {
        0
    } else {
        digits[0].value() + 62 * value_of(digits.drop_first())
    }
}

/// The digits of `n`, least significant first, with no zero at the most
/// significant end: none at all for 0.
pub open spec fn digits_of(n: nat) -> Seq<Digit>
    decreases n,
{
    if n == 0 {
        seq![]
    } else {
        seq![Digit::with_value((n % 62) as u64)] + digits_of(n / 62)
    }
}

/// Whether `digits` can be read back into a `u64`: worth no more than `u64::MAX`,
/// and no more than `MAX_DIGITS` of them, since the place of a twelfth digit, 62 to
/// the 11th, is itself past `u64::MAX`.
pub open spec fn fits_in_u64(digits: Seq<Digit>) -> bool {
    digits.len() <= MAX_DIGITS && value_of(digits) <= u64::MAX
}

/// How `digits` are written: one symbol per digit, in the same order.
pub open spec fn text_of(digits: Seq<Digit>) -> Seq<char> {
    digits.map_values(|d: Digit| d.symbol())
}

/// The digits that the characters of `s` write, or the first character that
/// writes none.
pub open spec fn digits_in(s: Seq<char>) -> Result<Seq<Digit>, Error>
    decreases s.len(),
{
    if s.len() == 0 {
        Ok(seq![])
    } else {
        match Digit::of_symbol(s[0]) {
            None => Err(Error::InvalidChar(s[0])),
            Some(d) => match digits_in(s.drop_first()) {
                Ok(rest) => Ok(seq![d] + rest),
                Err(e) => Err(e),
            },
        }
    }
}

/// What reading `s` as a base-62 number gives: `IsEmpty` where `s` holds
/// nothing but white space, else the digits of all its characters, or the
/// first character that is no digit (white space at either end included).
pub open spec fn parse(s: Seq<char>) -> Result<Seq<Digit>, Error> {
    if is_blank(s) {
        Err(Error::IsEmpty)
    } else {
        digits_in(s)
    }
}

/// A number in base 62, held as its digits, least significant first.
#[derive(Debug, PartialEq)]
pub struct Base62(pub Vec<Digit>);

/// Why a string is no base-62 number.
#[derive(Debug, Clone, Copy, PartialEq, Eq, Structural)]
pub enum Error {
    /// The character is none of `0-9`, `a-z`, `A-Z`.
    InvalidChar(char),
    /// The string holds nothing but white space.
    IsEmpty,
}

impl View for Base62 {
    type V = Seq<Digit>;

    open spec fn view(&self) -> Seq<Digit> {
        self.0@
    }
}

/// `num::pow` for `u64` (from the `num` crate, which takes it from `num-traits`):
/// `base` to the power `exp`, by repeated squaring. Each square it takes is at most
/// the result, and it multiplies with `*`, so it returns without overflow exactly
/// where the result fits in a `u64`; the contract admits only those calls.
#[verifier::external_body]
fn power(base: u64, exp: usize) -> (r: u64)
    requires
        pow(base as int, exp as nat) <= u64::MAX,
    ensures
        r == pow(base as int, exp as nat),
{
    num::pow(base, exp)
}

/// The value of digits put after other digits.
pub proof fn lemma_value_of_append(s: Seq<Digit>, t: Seq<Digit>)
    ensures
        value_of(s + t) == value_of(s) + pow(62, s.len()) * value_of(t),
    decreases s.len(),
{
    reveal(pow);
    if s.len() == 0 {
        assert(s + t =~= t);
    } else {
        lemma_value_of_append(s.drop_first(), t);
        assert((s + t).drop_first() =~= s.drop_first() + t);
        let p = pow(62, (s.len() - 1) as nat);
        let a = value_of(s.drop_first());
        let b = value_of(t);
        assert(62 * (a + p * b) == 62 * a + (62 * p) * b) by (nonlinear_arith);
    }
}

/// Reading one more digit adds its value times its place, and never passes the
/// value of all the digits.
pub proof fn lemma_value_of_prefix(s: Seq<Digit>, k: int)
    requires
        0 <= k < s.len(),
    ensures
        value_of(s.take(k + 1)) == value_of(s.take(k)) + pow(62, k as nat) * s[k].value(),
        value_of(s.take(k + 1)) <= value_of(s),
{
    assert(s.take(k + 1) =~= s.take(k) + seq![s[k]]);
    lemma_value_of_append(s.take(k), seq![s[k]]);
    let one = seq![s[k]];
    assert(one.drop_first() =~= Seq::<Digit>::empty());
    assert(value_of(one.drop_first()) == 0);
    assert(one[0] == s[k]);
    assert(value_of(one) == s[k].value());
    assert(s.take(k).len() == k);
    assert(s =~= s.take(k + 1) + s.skip(k + 1));
    lemma_value_of_append(s.take(k + 1), s.skip(k + 1));
    lemma_pow_positive_62(k + 1);
}

/// Powers of 62 are positive.
proof fn lemma_pow_positive_62(e: int)
    requires
        e >= 0,
    ensures
        pow(62, e as nat) > 0,
{
    vstd::arithmetic::power::lemma_pow_positive(62, e as nat);
}

/// The places of the digits that a `u64` reading takes fit in a `u64`.
proof fn lemma_place_fits(k: nat)
    requires
        k < MAX_DIGITS,
    ensures
        pow(62, k) <= u64::MAX,
{
    lemma_pow_increases(62, k, 10);
    reveal_with_fuel(pow, 11);
    assert(pow(62, 10) == 839299365868340224);
}

/// Reading the digits of a number gives the number back.
pub proof fn lemma_value_of_digits_of(n: nat)
    ensures
        value_of(digits_of(n)) == n,
    decreases n,
{
    if n > 0 {
        lemma_value_of_digits_of(n / 62);
        let d = Digit::with_value((n % 62) as u64);
        lemma_value(d, (n % 62) as u64);
        assert((seq![d] + digits_of(n / 62)).drop_first() =~= digits_of(n / 62));
    }
}

/// A number below 62 to the `k` has at most `k` digits.
proof fn lemma_digits_of_len(n: nat, k: nat)
    requires
        n < pow(62, k),
    ensures
        digits_of(n).len() <= k,
    decreases n,
{
    reveal(pow);
    if n > 0 {
        assert(k > 0);
        let p = pow(62, (k - 1) as nat);
        assert(n / 62 < p) by (nonlinear_arith)
            requires
                n < 62 * p,
        ;
        lemma_digits_of_len(n / 62, (k - 1) as nat);
    }
}

/// The digits of a `u64` can be read back into a `u64`.
pub proof fn lemma_digits_of_fit(n: u64)
    ensures
        fits_in_u64(digits_of(n as nat)),
{
    reveal_with_fuel(pow, 12);
    assert(pow(62, 11) == 52036560683837093888);
    lemma_digits_of_len(n as nat, 11);
    lemma_value_of_digits_of(n as nat);
}

impl Base62 {
    /// The digits of `number`, least significant first, with no zero at the most
    /// significant end; 0 has no digits.
    pub fn from(number: u64) -> (r: Base62)
        ensures
            r@ == digits_of(number as nat),
    {
        let mut n = number;
        let mut digits: Vec<Digit> = Vec::new();
        assert(digits@ + digits_of(n as nat) =~= digits_of(number as nat));
        while n > 0
            invariant
                digits@ + digits_of(n as nat) == digits_of(number as nat),
            decreases n,
        {
            if let Some(digit) = Digit::from_u64(n % BASE) {
                let ghost old_digits = digits@;
                digits.push(digit);
                assert(digits@ + digits_of((n / BASE) as nat) =~= old_digits + digits_of(
                    n as nat,
                ));
            }
            n /= BASE;
        }
        Base62(digits)
    }

    /// What the digits are worth. The sum is taken in `u64` arithmetic, so the
    /// digits must fit in one.
    pub fn to_u64(&self) -> (r: u64)
        requires
            fits_in_u64(self@),
        ensures
            r == value_of(self@),
    {
        let mut sum: u64 = 0;
        let mut index: usize = 0;
        assert(self@.take(0) =~= Seq::<Digit>::empty());
        while index < self.0.len()
            invariant
                fits_in_u64(self@),
                index <= self@.len(),
                sum == value_of(self@.take(index as int)),
            decreases self@.len() - index,
        {
            proof {
                lemma_value_of_prefix(self@, index as int);
                lemma_place_fits(index as nat);
            }
            let place = power(BASE, index);
            let digit = self.0[index].to_u64();
            assert(digit * place == pow(62, index as nat) * self@[index as int].value()) by (
            nonlinear_arith)
                requires
                    digit == self@[index as int].value(),
                    place == pow(62, index as nat),
            ;
            sum = sum + digit * place;
            index = index + 1;
        }
        assert(self@.take(self@.len() as int) =~= self@);
        sum
    }

    /// What the digits are worth, or `None` where they do not fit in a `u64`.
    pub fn checked_to_u64(&self) -> (r: Option<u64>)
        ensures
            r == (if fits_in_u64(self@) {
                Some(value_of(self@) as u64)
            } else {
                None::<u64>
            }),
    {
        if self.0.len() > MAX_DIGITS {
            return None;
        }
        let mut sum: u64 = 0;
        let mut index: usize = 0;
        assert(self@.take(0) =~= Seq::<Digit>::empty());
        while index < self.0.len()
            invariant
                self@.len() <= MAX_DIGITS,
                index <= self@.len(),
                sum == value_of(self@.take(index as int)),
            decreases self@.len() - index,
        {
            proof {
                lemma_value_of_prefix(self@, index as int);
                lemma_place_fits(index as nat);
            }
            let place = power(BASE, index);
            let digit = self.0[index].to_u64();
            assert(digit * place == pow(62, index as nat) * self@[index as int].value()) by (
            nonlinear_arith)
                requires
                    digit == self@[index as int].value(),
                    place == pow(62, index as nat),
            ;
            let term = match digit.checked_mul(place) {
                Some(term) => term,
                None => return None,
            };
            sum = match sum.checked_add(term) {
                Some(sum) => sum,
                None => return None,
            };
            index = index + 1;
        }
        assert(self@.take(self@.len() as int) =~= self@);
        Some(sum)
    }

    /// The symbols of the digits, least significant first, as `Display` writes them.
    pub fn to_string(&self) -> (s: String)
        ensures
            s@ == text_of(self@),
    {
        let mut s = String::new();
        let mut index: usize = 0;
        while index < self.0.len()
            invariant
                index <= self@.len(),
                s@ == text_of(self@.take(index as int)),
            decreases self@.len() - index,
        {
            let c = self.0[index].to_char();
            push_char(&mut s, c);
            index = index + 1;
            assert(s@ =~= text_of(self@.take(index as int)));
        }
        assert(self@.take(self@.len() as int) =~= self@);
        s
    }

    /// Reads `value` as a base-62 number: `IsEmpty` where it holds nothing but
    /// white space; else every character must be a digit, white space at either end
    /// included, and the first that is not is the `InvalidChar`.
    pub fn try_from(value: &str) -> (r: Result<Base62, Error>)
        ensures
            match r {
                Ok(b) => parse(value@) == Ok::<Seq<Digit>, Error>(b@),
                Err(e) => parse(value@) == Err::<Seq<Digit>, Error>(e),
            },
    {
        let trimmed_value = trim(value);
        proof {
            lemma_trimmed_empty(value@);
        }
        if trimmed_value.is_empty() {
            return Err(Error::IsEmpty);
        }
        let mut digits: Vec<Digit> = Vec::new();
        assert(value@.skip(0) =~= value@);
        for c in it: value.chars()
            invariant
                it.seq() == value@,
                !is_blank(value@),
                digits_in(value@) == (match digits_in(value@.skip(it.index() as int)) {
                    Ok(rest) => Ok(digits@ + rest),
                    Err(e) => Err(e),
                }),
        {
            let ghost i = it.index() as int;
            let ghost rest = value@.skip(i);
            assert(rest[0] == c);
            assert(rest.drop_first() =~= value@.skip(i + 1));
            match Digit::from_char(c) {
                Some(d) => {
                    let ghost before = digits@;
                    digits.push(d);
                    assert(forall|t: Seq<Digit>| #[trigger] (before + (seq![d] + t)) =~= digits@ + t);
                },
                None => {
                    return Err(Error::InvalidChar(c));
                },
            }
        }
        let ghost len = value@.len();
        assert(value@.skip(len as int) =~= Seq::<char>::empty());
        assert(digits@ + Seq::<Digit>::empty() =~= digits@);
        Ok(Base62(digits))
    }
}

/// Whether `digits` end in a digit other than `Digit0` (or are empty): the form
/// that `digits_of` gives.
pub open spec fn is_canonical(digits: Seq<Digit>) -> bool {
    digits.len() == 0 || digits.last() != Digit::Digit0
}

/// Digits in canonical form that are not empty are worth more than 0.
proof fn lemma_canonical_positive(d: Seq<Digit>)
    requires
        is_canonical(d),
        d.len() > 0,
    ensures
        value_of(d) > 0,
    decreases d.len(),
{
    if d.len() > 1 {
        assert(d.drop_first().last() == d.last());
        lemma_canonical_positive(d.drop_first());
    } else {
        assert(d[0] == d.last());
    }
}

/// Converting a number to base 62 and reading the digits back gives the number:
/// for every `u64`, `Base62::from(n).to_u64() == n`, and the digits always fit.
pub proof fn law_number_round_trip(n: u64)
    ensures
        fits_in_u64(digits_of(n as nat)),
        value_of(digits_of(n as nat)) == n,
{
    lemma_digits_of_fit(n);
    lemma_value_of_digits_of(n as nat);
}

/// The digits of a number are in canonical form: the most significant is never
/// `Digit0`, and 0 has no digits at all.
pub proof fn law_digits_of_canonical(n: nat)
    ensures
        is_canonical(digits_of(n)),
        digits_of(n).len() == 0 <==> n == 0,
    decreases n,
{
    if n > 0 {
        law_digits_of_canonical(n / 62);
        let d = Digit::with_value((n % 62) as u64);
        let rest = digits_of(n / 62);
        if rest.len() == 0 {
            assert(n / 62 == 0);
            assert((seq![d] + rest).last() == d);
            lemma_value(d, (n % 62) as u64);
        } else {
            assert((seq![d] + rest).last() == rest.last());
        }
    }
}

/// Digits in canonical form are the digits of what they are worth: reading a
/// `Base62` into a number and converting the number back gives the same digits.
pub proof fn law_value_round_trip(d: Seq<Digit>)
    requires
        is_canonical(d),
    ensures
        digits_of(value_of(d)) == d,
    decreases d.len(),
{
    if d.len() == 0 {
        assert(digits_of(0) =~= d);
    } else {
        let rest = d.drop_first();
        if rest.len() > 0 {
            assert(rest.last() == d.last());
        }
        law_value_round_trip(rest);
        lemma_value(d[0], 0);
        let v = value_of(d);
        if rest.len() > 0 {
            lemma_canonical_positive(rest);
        } else {
            assert(d[0] == d.last());
        }
        assert(v > 0);
        assert(v % 62 == d[0].value());
        assert(v / 62 == value_of(rest));
        assert(digits_of(v) =~= seq![d[0]] + rest);
        assert(seq![d[0]] + rest =~= d);
    }
}

/// Reading the text of digits gives the digits back.
proof fn lemma_digits_in_text(d: Seq<Digit>)
    ensures
        digits_in(text_of(d)) == Ok::<Seq<Digit>, Error>(d),
    decreases d.len(),
{
    if d.len() > 0 {
        lemma_digits_in_text(d.drop_first());
        lemma_symbol_round_trip(d[0]);
        let t = text_of(d);
        assert(t.len() == d.len());
        assert(t[0] == d[0].symbol());
        assert(t.drop_first() =~= text_of(d.drop_first()));
        assert(seq![d[0]] + d.drop_first() =~= d);
    } else {
        assert(text_of(d) =~= Seq::<char>::empty());
        assert(d =~= Seq::<Digit>::empty());
    }
}

/// Writing digits and reading the text back gives the same digits, wherever there
/// is at least one digit (no digits write the empty string, which reads as
/// `IsEmpty`).
pub proof fn law_text_round_trip(d: Seq<Digit>)
    requires
        d.len() > 0,
    ensures
        parse(text_of(d)) == Ok::<Seq<Digit>, Error>(d),
{
    lemma_digits_in_text(d);
    lemma_symbol_round_trip(d[0]);
    assert(text_of(d)[0] == d[0].symbol());
}

/// Converting a number above 0 to base 62, writing it, and reading the text back
/// gives the same digits.
pub proof fn law_number_text_round_trip(n: u64)
    requires
        n > 0,
    ensures
        parse(text_of(digits_of(n as nat))) == Ok::<Seq<Digit>, Error>(digits_of(n as nat)),
{
    law_digits_of_canonical(n as nat);
    law_text_round_trip(digits_of(n as nat));
}

/// Text that reads as digits is exactly the text of those digits.
pub proof fn law_parse_text(s: Seq<char>)
    ensures
        parse(s) matches Ok(d) ==> text_of(d) == s,
{
    if s.len() > 0 {
        lemma_text_of_digits_in(s);
    }
}

/// Characters that all read as digits are the text of those digits.
proof fn lemma_text_of_digits_in(s: Seq<char>)
    ensures
        digits_in(s) matches Ok(d) ==> text_of(d) == s,
    decreases s.len(),
{
    if s.len() > 0 {
        lemma_text_of_digits_in(s.drop_first());
        lemma_of_symbol(s[0]);
        if let Some(d0) = Digit::of_symbol(s[0]) {
            if let Ok(r) = digits_in(s.drop_first()) {
                let d = seq![d0] + r;
                assert(digits_in(s) == Ok::<Seq<Digit>, Error>(d));
                assert(text_of(r) == s.drop_first());
                assert forall|i: int| 0 <= i < s.len() implies #[trigger] text_of(d)[i] == s[i] by {
                    if i > 0 {
                        assert(d[i] == r[i - 1]);
                        assert(text_of(r)[i - 1] == s.drop_first()[i - 1]);
                    }
                }
                assert(text_of(d) =~= s);
            }
        }
    } else {
        assert(text_of(Seq::<Digit>::empty()) =~= s);
    }
}

/// Different digits are written differently.
pub proof fn law_text_of_injective(d1: Seq<Digit>, d2: Seq<Digit>)
    ensures
        text_of(d1) == text_of(d2) ==> d1 == d2,
{
    if text_of(d1) == text_of(d2) {
        assert(d1.len() == text_of(d1).len());
        assert forall|i: int| 0 <= i < d1.len() implies d1[i] == d2[i] by {
            assert(text_of(d1)[i] == text_of(d2)[i]);
            lemma_symbol_round_trip(d1[i]);
            lemma_symbol_round_trip(d2[i]);
        }
        assert(d1 =~= d2);
    }
}

/// Different numbers have different digits, written differently: no two keys share
/// a slug.
pub proof fn law_distinct_numbers_distinct_text(a: nat, b: nat)
    requires
        a != b,
    ensures
        digits_of(a) != digits_of(b),
        text_of(digits_of(a)) != text_of(digits_of(b)),
{
    lemma_value_of_digits_of(a);
    lemma_value_of_digits_of(b);
    law_text_of_injective(digits_of(a), digits_of(b));
}

/// Whether `c` is one of `0-9`, `a-z`, `A-Z`.
pub open spec fn is_digit_char(c: char) -> bool {
    let u = c as u32;
    ||| '0' as u32 <= u <= '9' as u32
    ||| 'a' as u32 <= u <= 'z' as u32
    ||| 'A' as u32 <= u <= 'Z' as u32
}

/// Each digit is written in order of value: the 10 worth 0 to 9 as `'0'` to
/// `'9'`, the 26 worth 10 to 35 as `'a'` to `'z'`, the 26 worth 36 to 61 as `'A'`
/// to `'Z'`; a character reads as a digit exactly when it is one of these, and then
/// as the digit written with it.
pub proof fn law_symbol_of_value(d: Digit, c: char)
    ensures
        d.value() < 62,
        d.value() < 10 ==> d.symbol() as u32 == '0' as u32 + d.value(),
        10 <= d.value() < 36 ==> d.symbol() as u32 == 'a' as u32 + (d.value() - 10),
        36 <= d.value() ==> d.symbol() as u32 == 'A' as u32 + (d.value() - 36),
        Digit::of_symbol(c) is Some <==> is_digit_char(c),
        Digit::of_symbol(c) == Some(d) <==> d.symbol() == c,
{
    lemma_of_symbol(c);
    lemma_symbol_round_trip(d);
}

/// The text of digits is each digit's own symbol, one for one, in order.
pub proof fn law_text_of(d: Seq<Digit>)
    ensures
        text_of(d).len() == d.len(),
        forall|i: int| 0 <= i < d.len() ==> #[trigger] text_of(d)[i] == d[i].symbol(),
{
}

/// Reading characters as digits succeeds exactly when every character is one of
/// `0-9`, `a-z`, `A-Z`, and then gives the digits the text of which is the
/// characters; otherwise it fails on the first character that is not.
pub proof fn law_digits_in(s: Seq<char>)
    ensures
        digits_in(s) is Ok <==> forall|i: int| 0 <= i < s.len() ==> #[trigger] is_digit_char(s[i]),
        digits_in(s) matches Ok(d) ==> text_of(d) == s,
        digits_in(s) matches Err(e) ==> exists|j: int|
            0 <= j < s.len() && e == Error::InvalidChar(s[j]) && !is_digit_char(s[j]) && forall|
                k: int,
            |
                0 <= k < j ==> #[trigger] is_digit_char(s[k]),
    decreases s.len(),
{
    lemma_text_of_digits_in(s);
    if s.len() > 0 {
        law_digits_in(s.drop_first());
        law_symbol_of_value(Digit::Digit0, s[0]);
        if digits_in(s) is Ok {
            assert forall|i: int| 0 <= i < s.len() implies #[trigger] is_digit_char(s[i]) by {
                if i > 0 {
                    assert(s[i] == s.drop_first()[i - 1]);
                }
            }
        }
        if forall|i: int| 0 <= i < s.len() ==> #[trigger] is_digit_char(s[i]) {
            assert forall|i: int| 0 <= i < s.drop_first().len() implies #[trigger] is_digit_char(
                s.drop_first()[i],
            ) by {
                assert(s.drop_first()[i] == s[i + 1]);
            }
        }
        if let Err(e) = digits_in(s) {
            if is_digit_char(s[0]) {
                let j = choose|j: int|
                    0 <= j < s.drop_first().len() && e == Error::InvalidChar(s.drop_first()[j])
                        && !is_digit_char(s.drop_first()[j]) && forall|k: int|
                        0 <= k < j ==> #[trigger] is_digit_char(s.drop_first()[k]);
                assert(s[j + 1] == s.drop_first()[j]);
                assert forall|k: int| 0 <= k < j + 1 implies #[trigger] is_digit_char(s[k]) by {
                    if k > 0 {
                        assert(s[k] == s.drop_first()[k - 1]);
                    }
                }
            } else {
                assert(e == Error::InvalidChar(s[0]));
            }
        }
    }
}

/// Reading a string as a base-62 number: `IsEmpty` exactly where it is all white
/// space; otherwise as `law_digits_in` says, with white space at either end no digit.
pub proof fn law_parse(s: Seq<char>)
    ensures
        parse(s) == Err::<Seq<Digit>, Error>(Error::IsEmpty) <==> is_blank(s),
        !is_blank(s) ==> parse(s) == digits_in(s),
        parse(s) matches Ok(d) ==> text_of(d) == s && d.len() > 0,
{
    law_digits_in(s);
    if !is_blank(s) {
        if let Err(e) = digits_in(s) {
            assert(e is InvalidChar);
        }
        if let Ok(d) = digits_in(s) {
            assert(s.len() > 0);
            assert(text_of(d).len() == d.len());
        }
    }
}

/// What digits are worth, from either end: nothing for no digits; the first digit
/// plus 62 times the rest; the rest plus the last digit times 62 to the power of
/// its place.
pub proof fn law_value_of(d: Seq<Digit>)
    ensures
        d.len() == 0 ==> value_of(d) == 0,
        d.len() > 0 ==> value_of(d) == d[0].value() + 62 * value_of(d.drop_first()),
        d.len() > 0 ==> value_of(d) == value_of(d.drop_last()) + pow(62, (d.len() - 1) as nat)
            * d.last().value(),
{
    if d.len() > 0 {
        lemma_value_of_prefix(d, d.len() - 1);
        assert(d.take(d.len() as int) =~= d);
        assert(d.take(d.len() - 1) =~= d.drop_last());
    }
}

} // verus!
