//! Default header labels.
//!
//! Column labels follow the spreadsheet convention: indices 0..=25 map to
//! the single letters `A`..=`Z`, indices 26..=701 map to two-letter labels
//! `AA`..=`ZZ`, and any higher index falls back to its bare decimal text
//! (three-letter labels are deliberately not generated). Row labels are the
//! decimal text of the 1-based row number: row index 0 is labelled `1`.

use vstd::prelude::*;

verus! {

/// The decimal digit character for `d` (`0` maps to `'0'`, ..., `9` to `'9'`).
pub open spec fn digit_char(d: int) -> char
    recommends
        0 <= d < 10,
{
    ((48 + d) as u8) as char
}

/// The decimal text of `n`, most significant digit first, no sign, no
/// leading zeros (except for `n == 0`, which is the single digit `0`).
pub open spec fn dec_digits(n: nat) -> Seq<char>
    decreases n,
{
    if n < 10 {
        seq![digit_char(n as int)]
    } else {
        dec_digits(n / 10).push(digit_char((n % 10) as int))
    }
}

/// The upper-case letter for alphabet position `i` (`0` maps to `'A'`, ...,
/// `25` to `'Z'`).
pub open spec fn letter_char(i: int) -> char
    recommends
        0 <= i < 26,
{
    ((65 + i) as u8) as char
}

/// The default column label for 0-based column index `i`: a single letter
/// for `i <= 25`, a two-letter label for `26 <= i <= 701`, and the bare
/// decimal text of `i` beyond that.
pub open spec fn col_label(i: int) -> Seq<char>
    recommends
        i >= 0,
{
    if i <= 25 {
        seq![letter_char(i)]
    } else if i / 26 > 26 {
        dec_digits(i as nat)
    } else {
        seq![letter_char(i / 26 - 1), letter_char(i - 26 * (i / 26))]
    }
}

/// The default row label for 0-based row index `i`: the decimal text of the
/// 1-based row number `i + 1`.
pub open spec fn row_label(i: int) -> Seq<char>
    recommends
        i >= 0,
{
    dec_digits((i + 1) as nat)
}

/// The single-character string for decimal digit `d`.
fn digit_str(d: u32) -> (s: &'static str)
    requires
        d < 10,
    ensures
        s@ == seq![digit_char(d as int)],
{
    if d == 0 {
        proof { reveal_strlit("0"); assert("0"@ =~= seq![digit_char(0)]); }
        "0"
    } else if d == 1 {
        proof { reveal_strlit("1"); assert("1"@ =~= seq![digit_char(1)]); }
        "1"
    } else if d == 2 {
        proof { reveal_strlit("2"); assert("2"@ =~= seq![digit_char(2)]); }
        "2"
    } else if d == 3 {
        proof { reveal_strlit("3"); assert("3"@ =~= seq![digit_char(3)]); }
        "3"
    } else if d == 4 {
        proof { reveal_strlit("4"); assert("4"@ =~= seq![digit_char(4)]); }
        "4"
    } else if d == 5 {
        proof { reveal_strlit("5"); assert("5"@ =~= seq![digit_char(5)]); }
        "5"
    } else if d == 6 {
        proof { reveal_strlit("6"); assert("6"@ =~= seq![digit_char(6)]); }
        "6"
    } else if d == 7 {
        proof { reveal_strlit("7"); assert("7"@ =~= seq![digit_char(7)]); }
        "7"
    } else if d == 8 {
        proof { reveal_strlit("8"); assert("8"@ =~= seq![digit_char(8)]); }
        "8"
    } else {
        proof { reveal_strlit("9"); assert("9"@ =~= seq![digit_char(9)]); }
        "9"
    }
}

/// The single-character string for alphabet position `i`.
fn letter_str(i: u32) -> (s: &'static str)
    requires
        i < 26,
    ensures
        s@ == seq![letter_char(i as int)],
{
    if i == 0 {
        proof { reveal_strlit("A"); assert("A"@ =~= seq![letter_char(0)]); }
        "A"
    } else if i == 1 {
        proof { reveal_strlit("B"); assert("B"@ =~= seq![letter_char(1)]); }
        "B"
    } else if i == 2 {
        proof { reveal_strlit("C"); assert("C"@ =~= seq![letter_char(2)]); }
        "C"
    } else if i == 3 {
        proof { reveal_strlit("D"); assert("D"@ =~= seq![letter_char(3)]); }
        "D"
    } else if i == 4 {
        proof { reveal_strlit("E"); assert("E"@ =~= seq![letter_char(4)]); }
        "E"
    } else if i == 5 {
        proof { reveal_strlit("F"); assert("F"@ =~= seq![letter_char(5)]); }
        "F"
    } else if i == 6 {
        proof { reveal_strlit("G"); assert("G"@ =~= seq![letter_char(6)]); }
        "G"
    } else if i == 7 {
        proof { reveal_strlit("H"); assert("H"@ =~= seq![letter_char(7)]); }
        "H"
    } else if i == 8 {
        proof { reveal_strlit("I"); assert("I"@ =~= seq![letter_char(8)]); }
        "I"
    } else if i == 9 {
        proof { reveal_strlit("J"); assert("J"@ =~= seq![letter_char(9)]); }
        "J"
    } else if i == 10 {
        proof { reveal_strlit("K"); assert("K"@ =~= seq![letter_char(10)]); }
        "K"
    } else if i == 11 {
        proof { reveal_strlit("L"); assert("L"@ =~= seq![letter_char(11)]); }
        "L"
    } else if i == 12 {
        proof { reveal_strlit("M"); assert("M"@ =~= seq![letter_char(12)]); }
        "M"
    } else if i == 13 {
        proof { reveal_strlit("N"); assert("N"@ =~= seq![letter_char(13)]); }
        "N"
    } else if i == 14 {
        proof { reveal_strlit("O"); assert("O"@ =~= seq![letter_char(14)]); }
        "O"
    } else if i == 15 {
        proof { reveal_strlit("P"); assert("P"@ =~= seq![letter_char(15)]); }
        "P"
    } else if i == 16 {
        proof { reveal_strlit("Q"); assert("Q"@ =~= seq![letter_char(16)]); }
        "Q"
    } else if i == 17 {
        proof { reveal_strlit("R"); assert("R"@ =~= seq![letter_char(17)]); }
        "R"
    } else if i == 18 {
        proof { reveal_strlit("S"); assert("S"@ =~= seq![letter_char(18)]); }
        "S"
    } else if i == 19 {
        proof { reveal_strlit("T"); assert("T"@ =~= seq![letter_char(19)]); }
        "T"
    } else if i == 20 {
        proof { reveal_strlit("U"); assert("U"@ =~= seq![letter_char(20)]); }
        "U"
    } else if i == 21 {
        proof { reveal_strlit("V"); assert("V"@ =~= seq![letter_char(21)]); }
        "V"
    } else if i == 22 {
        proof { reveal_strlit("W"); assert("W"@ =~= seq![letter_char(22)]); }
        "W"
    } else if i == 23 {
        proof { reveal_strlit("X"); assert("X"@ =~= seq![letter_char(23)]); }
        "X"
    } else if i == 24 {
        proof { reveal_strlit("Y"); assert("Y"@ =~= seq![letter_char(24)]); }
        "Y"
    } else {
        proof { reveal_strlit("Z"); assert("Z"@ =~= seq![letter_char(25)]); }
        "Z"
    }
}

/// The decimal text of `n`.
pub fn decimal_string(n: u32) -> (s: String)
    ensures
        s@ == dec_digits(n as nat),
    decreases n,
{
    if n < 10 {
        let s = String::from_str(digit_str(n));
        s
    } else {
        proof {
            vstd::arithmetic::div_mod::lemma_div_decreases(n as int, 10);
            vstd::arithmetic::div_mod::lemma_div_pos_is_pos(n as int, 10);
        }
        let mut s = decimal_string(n / 10);
        s.append(digit_str(n % 10));
        proof {
            assert(s@ =~= dec_digits((n as nat) / 10).push(digit_char(((n as nat) % 10) as int)));
        }
        s
    }
}

/// The default column label for column index `i` (see [`col_label`]).
pub fn col_header_label(i: i32) -> (s: String)
    requires
        i >= 0,
    ensures
        s@ == col_label(i as int),
{
    let iu = i as u32;
    if iu <= 25 {
        String::from_str(letter_str(iu))
    } else {
        let t = iu / 26;
        proof {
            vstd::arithmetic::div_mod::lemma_fundamental_div_mod(iu as int, 26);
            vstd::arithmetic::div_mod::lemma_remainder_upper(iu as int, 26);
            vstd::arithmetic::div_mod::lemma_remainder_lower(iu as int, 26);
            vstd::arithmetic::div_mod::lemma_div_pos_is_pos(iu as int, 26);
        }
        if t > 26 {
            decimal_string(iu)
        } else {
            let mut s = String::from_str(letter_str(t - 1));
            s.append(letter_str(iu - 26 * t));
            proof {
                assert(s@ =~= seq![
                    letter_char((i as int) / 26 - 1),
                    letter_char(i as int - 26 * ((i as int) / 26)),
                ]);
            }
            s
        }
    }
}

/// The default row label for row index `i` (see [`row_label`]).
pub fn row_header_label(i: i32) -> (s: String)
    requires
        0 <= i < i32::MAX,
    ensures
        s@ == row_label(i as int),
{
    decimal_string((i + 1) as u32)
}

} // verus!
