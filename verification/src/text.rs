//! Text building blocks of a frame: the line break, the cursor-up control
//! sequence, decimal numbers, and counting characters.

use vstd::prelude::*;
use vstd::string::StringExecFns;

verus! {

/// The line separator: carriage return, then line feed.
pub open spec fn line_break() -> Seq<char> {
    seq!['\r', '\n']
}

/// The control sequence that moves the cursor up one line and to the
/// start of that line.
pub open spec fn cursor_up() -> Seq<char> {
    seq!['\r', '\x1B', '[', '1', 'F']
}

/// The label in front of the frame rate.
pub open spec fn fps_label() -> Seq<char> {
    seq!['F', 'P', 'S', ':', ' ']
}

/// `unit` written `times` times in a row.
pub open spec fn repeated(unit: Seq<char>, times: nat) -> Seq<char>
    decreases times,
{
    if times == 0 {
        Seq::empty()
    } else {
        repeated(unit, (times - 1) as nat) + unit
    }
}

/// The character of one decimal digit.
pub open spec fn digit_char(d: nat) -> char
    recommends
        d < 10,
{
    if d == 0 {
        '0'
    } else if d == 1 {
        '1'
    } else if d == 2 {
        '2'
    } else if d == 3 {
        '3'
    } else if d == 4 {
        '4'
    } else if d == 5 {
        '5'
    } else if d == 6 {
        '6'
    } else if d == 7 {
        '7'
    } else if d == 8 {
        '8'
    } else {
        '9'
    }
}

/// `n` in decimal, most significant digit first, without leading zeros.
pub open spec fn decimal(n: nat) -> Seq<char>
    decreases n,
{
    if n < 10 {
        seq![digit_char(n)]
    } else {
        decimal(n / 10).push(digit_char(n % 10))
    }
}

/// How often `c` occurs in `s`.
pub open spec fn count_char(s: Seq<char>, c: char) -> nat
    decreases s.len(),
{
    if s.len() == 0 {
        0
    } else {
        count_char(s.drop_last(), c) + if s.last() == c {
            1nat
        } else {
            0nat
        }
    }
}

/// Counting a character in a concatenation is counting it in both parts.
pub proof fn lemma_count_char_concat(a: Seq<char>, b: Seq<char>, c: char)
    ensures
        count_char(a + b, c) == count_char(a, c) + count_char(b, c),
    decreases b.len(),
{
    if b.len() == 0 {
        assert(a + b =~= a);
    } else {
        assert((a + b).drop_last() =~= a + b.drop_last());
        lemma_count_char_concat(a, b.drop_last(), c);
    }
}

/// A repetition holds a character as often as one unit does, times the
/// number of repetitions.
pub proof fn lemma_count_char_repeated(unit: Seq<char>, times: nat, c: char)
    ensures
        count_char(repeated(unit, times), c) == times * count_char(unit, c),
    decreases times,
{
    if times > 0 {
        lemma_count_char_repeated(unit, (times - 1) as nat, c);
        lemma_count_char_concat(repeated(unit, (times - 1) as nat), unit, c);
        assert(times * count_char(unit, c) == (times - 1) * count_char(unit, c) + count_char(
            unit,
            c,
        )) by (nonlinear_arith);
    } else {
        assert(0 * count_char(unit, c) == 0) by (nonlinear_arith);
    }
}

/// A decimal number holds digits only.
pub proof fn lemma_decimal_digits(n: nat)
    ensures
        decimal(n).len() >= 1,
        forall|i: int| 0 <= i < decimal(n).len() ==> '0' <= #[trigger] decimal(n)[i] <= '9',
    decreases n,
{
    if n >= 10 {
        lemma_decimal_digits(n / 10);
    }
}

/// The one-character text of a decimal digit.
fn digit_str(d: u64) -> (s: &'static str)
    requires
        d < 10,
    ensures
        s@ == seq![digit_char(d as nat)],
{
    proof {
        reveal_strlit("0");
        reveal_strlit("1");
        reveal_strlit("2");
        reveal_strlit("3");
        reveal_strlit("4");
        reveal_strlit("5");
        reveal_strlit("6");
        reveal_strlit("7");
        reveal_strlit("8");
        reveal_strlit("9");
    }
    let s: &'static str = if d == 0 {
        "0"
    } else if d == 1 {
        "1"
    } else if d == 2 {
        "2"
    } else if d == 3 {
        "3"
    } else if d == 4 {
        "4"
    } else if d == 5 {
        "5"
    } else if d == 6 {
        "6"
    } else if d == 7 {
        "7"
    } else if d == 8 {
        "8"
    } else {
        "9"
    };
    assert(s@ =~= seq![digit_char(d as nat)]);
    s
}

/// Appends `n` in decimal to `out`.
pub fn push_decimal(out: &mut String, n: u64)
    ensures
        final(out)@ == old(out)@ + decimal(n as nat),
    decreases n,
{
    if n < 10 {
        out.append(digit_str(n));
    } else {
        push_decimal(out, n / 10);
        out.append(digit_str(n % 10));
        assert(old(out)@ + decimal((n / 10) as nat) + seq![digit_char((n % 10) as nat)] =~= old(
            out,
        )@ + decimal(n as nat));
    }
}

/// Appends the line separator to `out`.
pub fn push_line_break(out: &mut String)
    ensures
        final(out)@ == old(out)@ + line_break(),
{
    proof {
        reveal_strlit("\r\n");
    }
    assert("\r\n"@ =~= line_break());
    out.append("\r\n");
}

/// Appends one cursor-up control sequence to `out`.
pub fn push_cursor_up(out: &mut String)
    ensures
        final(out)@ == old(out)@ + cursor_up(),
{
    proof {
        reveal_strlit("\r\x1B[1F");
    }
    assert("\r\x1B[1F"@ =~= cursor_up());
    out.append("\r\x1B[1F");
}

/// Appends the frame-rate label to `out`.
pub fn push_fps_label(out: &mut String)
    ensures
        final(out)@ == old(out)@ + fps_label(),
{
    proof {
        reveal_strlit("FPS: ");
    }
    assert("FPS: "@ =~= fps_label());
    out.append("FPS: ");
}

} // verus!
