//! Text that the machine reports: decimal numbers and quoted name lists.

use vstd::prelude::*;

verus! {

/// The character of a decimal digit.
pub open spec fn digit_char(d: nat) -> char {
    (48 + d) as char
}

/// The decimal notation of a number, without leading zeroes.
pub open spec fn decimal(n: nat) -> Seq<char>
    decreases n,
{
    if n < 10 {
        seq![digit_char(n)]
    } else {
        decimal(n / 10).push(digit_char(n % 10))
    }
}

/// The one-character string of a decimal digit.
fn digit_str(d: u128) -> (r: &'static str)
    requires
        d < 10,
    ensures
        r@ == seq![digit_char(d as nat)],
{
    proof {
        reveal_strlit("0");
        reveal_strlit("1");
        reveal_strlit("2");
        reveal_strlit("3");
        reveal_strlit("4");
        reveal_strlit("5");
        reveal_strlit("6");
        reveal_strlit("7");
        reveal_strlit("8");
        reveal_strlit("9");
    }
    match d {
        0 => "0",
        1 => "1",
        2 => "2",
        3 => "3",
        4 => "4",
        5 => "5",
        6 => "6",
        7 => "7",
        8 => "8",
        _ => "9",
    }
}

/// Writes a number in decimal.
pub fn decimal_string(n: u64) -> (r: String)
    ensures
        r@ == decimal(n as nat),
{
    wide_decimal_string(n as u128)
}

/// Writes a number of up to 128 bits in decimal.
pub fn wide_decimal_string(n: u128) -> (r: String)
    ensures
        r@ == decimal(n as nat),
    decreases n,
{
    if n < 10 {
        String::from_str(digit_str(n))
    } else {
        let mut s = wide_decimal_string(n / 10);
        s.append(digit_str(n % 10));
        s
    }
}

/// The decimal notation of an integer, with a minus sign where it is
/// negative.
pub open spec fn signed_decimal(i: int) -> Seq<char> {
    if i < 0 {
        "-"@ + decimal((-i) as nat)
    } else {
        decimal(i as nat)
    }
}

/// Writes an integer in decimal, with a minus sign where it is negative.
pub fn signed_decimal_string(i: i128) -> (r: String)
    ensures
        r@ == signed_decimal(i as int),
{
    if i < 0 {
        let m: u128 = ((0 - (i + 1)) as u128) + 1;
        let mut s = String::from_str("-");
        let d = wide_decimal_string(m);
        s.append(d.as_str());
        s
    } else {
        wide_decimal_string(i as u128)
    }
}

/// `n` copies of the character.
pub open spec fn repeat_char(c: char, n: nat) -> Seq<char> {
    Seq::new(n, |i: int| c)
}

/// The text followed by spaces up to the width, as `{:<w}` writes it.
pub open spec fn pad_end(s: Seq<char>, w: nat) -> Seq<char> {
    if s.len() < w {
        s + repeat_char(' ', (w - s.len()) as nat)
    } else {
        s
    }
}

/// The text preceded by the fill character up to the width, as `{:w}`
/// writes a number (with spaces) and `{:0w}` (with zeroes).
pub open spec fn pad_start(s: Seq<char>, w: nat, fill: char) -> Seq<char> {
    if s.len() < w {
        repeat_char(fill, (w - s.len()) as nat) + s
    } else {
        s
    }
}

/// Writes `n` spaces or zeroes.
fn fill_string(zero: bool, n: usize) -> (r: String)
    ensures
        r@ == repeat_char(if zero { '0' } else { ' ' }, n as nat),
{
    proof {
        reveal_strlit("0");
        reveal_strlit(" ");
    }
    let mut out = String::new();
    let mut i: usize = 0;
    while i < n
        invariant
            i <= n,
            out@ == repeat_char(if zero { '0' } else { ' ' }, i as nat),
        decreases n - i,
    {
        if zero {
            out.append("0");
        } else {
            out.append(" ");
        }
        proof {
            reveal_strlit("0");
            reveal_strlit(" ");
            assert(out@ =~= repeat_char(if zero { '0' } else { ' ' }, (i + 1) as nat));
        }
        i = i + 1;
    }
    out
}

/// Writes the text followed by spaces up to the width.
pub fn pad_end_string(s: &str, w: usize) -> (r: String)
    ensures
        r@ == pad_end(s@, w as nat),
{
    let n = s.unicode_len();
    let mut out = String::from_str(s);
    if n < w {
        let f = fill_string(false, w - n);
        out.append(f.as_str());
    }
    out
}

/// Writes the text preceded by spaces, or zeroes, up to the width.
pub fn pad_start_string(s: &str, w: usize, zero: bool) -> (r: String)
    ensures
        r@ == pad_start(s@, w as nat, if zero { '0' } else { ' ' }),
{
    let n = s.unicode_len();
    if n < w {
        let mut out = fill_string(zero, w - n);
        out.append(s);
        out
    } else {
        String::from_str(s)
    }
}

/// Names in single quotes, separated by a comma and a space.
pub open spec fn quoted_list(names: Seq<Seq<char>>) -> Seq<char>
    decreases names.len(),
{
    if names.len() == 0 {
        Seq::empty()
    } else if names.len() == 1 {
        "'"@ + names[0] + "'"@
    } else {
        quoted_list(names.drop_last()) + ", '"@ + names.last() + "'"@
    }
}

/// Writes names in single quotes, separated by a comma and a space.
pub fn quoted_list_string(names: &Vec<String>) -> (r: String)
    ensures
        r@ == quoted_list(names@.map_values(|s: String| s@)),
{
    let ghost view = names@.map_values(|s: String| s@);
    let mut out = String::new();
    let mut i: usize = 0;
    while i < names.len()
        invariant
            i <= names@.len(),
            view == names@.map_values(|s: String| s@),
            out@ == quoted_list(view.subrange(0, i as int)),
        decreases names@.len() - i,
    {
        proof {
            assert(view.subrange(0, i + 1).drop_last() =~= view.subrange(0, i as int));
        }
        if i == 0 {
            out.append("'");
        } else {
            out.append(", '");
        }
        out.append(names[i].as_str());
        out.append("'");
        i = i + 1;
    }
    proof {
        assert(view.subrange(0, names@.len() as int) =~= view);
    }
    out
}

} // verus!
