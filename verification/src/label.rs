use vstd::prelude::*;
use vstd::string::StringExecFns;

verus! {

/// Names of the twelve pitch classes, starting from C.
pub open spec fn pitch_names() -> Seq<Seq<char>> {
    seq![
        seq!['C', '-'], seq!['C', '#'], seq!['D', '-'], seq!['D', '#'],
        seq!['E', '-'], seq!['F', '-'], seq!['F', '#'], seq!['G', '-'],
        seq!['G', '#'], seq!['A', '-'], seq!['A', '#'], seq!['B', '-'],
    ]
}

/// The decimal digit characters.
pub open spec fn digit_chars() -> Seq<char> {
    seq!['0', '1', '2', '3', '4', '5', '6', '7', '8', '9']
}

/// `n` written in decimal, without leading zeros.
pub open spec fn decimal(n: nat) -> Seq<char>
    decreases n,
{
    if n < 10 {
        seq![digit_chars()[n as int]]
    } else {
        decimal(n / 10) + seq![digit_chars()[(n % 10) as int]]
    }
}

/// `n` in decimal with its sign always written: `+0`, `+3`, `-1`.
pub open spec fn signed_decimal(n: int) -> Seq<char> {
    if n >= 0 {
        seq!['+'] + decimal(n as nat)
    } else {
        seq!['-'] + decimal((-n) as nat)
    }
}

/// `a / b` rounded toward zero, as integer division does in Rust.
pub open spec fn div_toward_zero(a: int, b: int) -> int {
    if a >= 0 {
        a / b
    } else {
        -((-a) / b)
    }
}

/// Label of a transposition by `semis` semitones: the pitch class reached from
/// C, then the octave (`semis / 12`, rounded toward zero) with its sign.
pub open spec fn note_label(semis: int) -> Seq<char> {
    pitch_names()[semis % 12] + signed_decimal(div_toward_zero(semis, 12))
}

fn pitch_name(pc: u8) -> (s: String)
    requires
        pc < 12,
    ensures
        s@ == pitch_names()[pc as int],
{
    let lit = match pc {
        0 => "C-",
        1 => "C#",
        2 => "D-",
        3 => "D#",
        4 => "E-",
        5 => "F-",
        6 => "F#",
        7 => "G-",
        8 => "G#",
        9 => "A-",
        10 => "A#",
        _ => "B-",
    };
    proof {
        reveal_strlit("C-");
        reveal_strlit("C#");
        reveal_strlit("D-");
        reveal_strlit("D#");
        reveal_strlit("E-");
        reveal_strlit("F-");
        reveal_strlit("F#");
        reveal_strlit("G-");
        reveal_strlit("G#");
        reveal_strlit("A-");
        reveal_strlit("A#");
        reveal_strlit("B-");
    }
    String::from_str(lit)
}

fn digit(d: u8) -> (s: &'static str)
    requires
        d < 10,
    ensures
        s@ == seq![digit_chars()[d as int]],
{
    let lit = match d {
        0 => "0",
        1 => "1",
        2 => "2",
        3 => "3",
        4 => "4",
        5 => "5",
        6 => "6",
        7 => "7",
        8 => "8",
        _ => "9",
    };
    proof {
        reveal_strlit("0");
        reveal_strlit("1");
        reveal_strlit("2");
        reveal_strlit("3");
        reveal_strlit("4");
        reveal_strlit("5");
        reveal_strlit("6");
        reveal_strlit("7");
        reveal_strlit("8");
        reveal_strlit("9");
    }
    lit
}

/// Label shown for a step transposed by `semis` semitones, such as `C-+0`,
/// `G-+0` for -5 or `C--1` for -12.
pub fn note_name(semis: i8) -> (s: String)
    ensures
        s@ == note_label(semis as int),
{
    let wide: u16 = (semis as i16 + 132) as u16;
    let pc: u8 = (wide % 12) as u8;
    assert(pc == (semis as int) % 12);
    let mut s = pitch_name(pc);
    let magnitude: u8 = if semis >= 0 {
        (semis as u8) / 12
    } else {
        ((-(semis as i16)) as u8) / 12
    };
    let negative = semis < 0 && magnitude > 0;
    proof {
        reveal_strlit("+");
        reveal_strlit("-");
        reveal_strlit("1");
        reveal_with_fuel(decimal, 2);
    }
    if negative {
        s.append("-");
    } else {
        s.append("+");
    }
    if magnitude >= 10 {
        s.append("1");
        s.append(digit(magnitude - 10));
    } else {
        s.append(digit(magnitude));
    }
    assert(s@ =~= note_label(semis as int));
    s
}

} // verus!
