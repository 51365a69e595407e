//! Elapsed-time text: whole seconds written as days, hours, minutes and
//! seconds, the way GitLab's time tracking reads them (`1d2h3m4s`).

use vstd::prelude::*;
use vstd::string::*;

verus! {

/// The character of the decimal digit `d`.
pub open spec fn digit_char(d: nat) -> char {
    if d == 0 {
        '0'
    } else if d == 1 {
        '1'
    } else if d == 2 {
        '2'
    } else if d == 3 {
        '3'
    } else if d == 4 {
        '4'
    } else if d == 5 {
        '5'
    } else if d == 6 {
        '6'
    } else if d == 7 {
        '7'
    } else if d == 8 {
        '8'
    } else {
        '9'
    }
}

/// `n` in decimal, most significant digit first, without leading zeros.
pub open spec fn decimal(n: nat) -> Seq<char>
    decreases n,
{
    if n < 10 {
        seq![digit_char(n)]
    } else {
        decimal(n / 10).push(digit_char(n % 10))
    }
}

/// One unit of the decomposition: nothing when the count is zero,
/// else the count followed by the unit's letter.
pub open spec fn unit_text(count: nat, unit: char) -> Seq<char> {
    if count == 0 {
        Seq::empty()
    } else {
        decimal(count).push(unit)
    }
}

/// The text for a total of whole seconds.
///
/// A non-negative total is split into days, hours, minutes and seconds,
/// largest unit first; a unit that is zero is left out, except that the
/// seconds are written when nothing else is. A negative total has no
/// positive unit: only the seconds are written, the remainder of the total
/// by sixty with the total's sign.
pub open spec fn gitlab_time_text(total_seconds: int) -> Seq<char> {
    if total_seconds >= 0 {
        let days = (total_seconds / 86400) as nat;
        let hours = (total_seconds % 86400 / 3600) as nat;
        let minutes = (total_seconds % 3600 / 60) as nat;
        let seconds = (total_seconds % 60) as nat;
        unit_text(days, 'd') + unit_text(hours, 'h') + unit_text(minutes, 'm') + (if seconds > 0
            || total_seconds < 60 {
            decimal(seconds).push('s')
        } else {
            Seq::empty()
        })
    } else {
        let seconds = ((-total_seconds) % 60) as nat;
        if seconds == 0 {
            seq!['0', 's']
        } else {
            seq!['-'] + decimal(seconds).push('s')
        }
    }
}

fn digit_str(d: u64) -> (text: &'static str)
    requires
        d < 10,
    ensures
        text@ == seq![digit_char(d as nat)],
{
    proof {
        reveal_strlit("0");
        reveal_strlit("1");
        reveal_strlit("2");
        reveal_strlit("3");
        reveal_strlit("4");
        reveal_strlit("5");
        reveal_strlit("6");
        reveal_strlit("7");
        reveal_strlit("8");
        reveal_strlit("9");
    }
    let text = if d == 0 {
        "0"
    } else if d == 1 {
        "1"
    } else if d == 2 {
        "2"
    } else if d == 3 {
        "3"
    } else if d == 4 {
        "4"
    } else if d == 5 {
        "5"
    } else if d == 6 {
        "6"
    } else if d == 7 {
        "7"
    } else if d == 8 {
        "8"
    } else {
        "9"
    };
    assert(text@ =~= seq![digit_char(d as nat)]);
    text
}

fn push_decimal(out: &mut String, n: u64)
    ensures
        final(out)@ == old(out)@ + decimal(n as nat),
    decreases n,
{
    if n >= 10 {
        push_decimal(out, n / 10);
    }
    out.append(digit_str(n % 10));
    assert(out@ =~= old(out)@ + decimal(n as nat));
}

fn push_unit(out: &mut String, count: u64, unit: &str)
    requires
        unit@.len() == 1,
    ensures
        final(out)@ == old(out)@ + unit_text(count as nat, unit@[0]),
{
    if count > 0 {
        push_decimal(out, count);
        out.append(unit);
    }
    assert(out@ =~= old(out)@ + unit_text(count as nat, unit@[0]));
}

/// Formats a total of whole seconds for display.
pub fn format_gitlab_time(total_seconds: i64) -> (text: String)
    ensures
        text@ == gitlab_time_text(total_seconds as int),
{
    proof {
        reveal_strlit("d");
        reveal_strlit("h");
        reveal_strlit("m");
        reveal_strlit("s");
        reveal_strlit("-");
    }
    let mut out = String::new();
    if total_seconds >= 0 {
        let total: u64 = total_seconds as u64;
        let seconds: u64 = total % 60;
        push_unit(&mut out, total / 86400, "d");
        push_unit(&mut out, total % 86400 / 3600, "h");
        push_unit(&mut out, total % 3600 / 60, "m");
        if seconds > 0 || total < 60 {
            push_decimal(&mut out, seconds);
            out.append("s");
        }
        assert(out@ =~= gitlab_time_text(total_seconds as int));
    } else {
        let magnitude: u64 = (-(total_seconds + 1)) as u64 + 1;
        let seconds: u64 = magnitude % 60;
        if seconds > 0 {
            out.append("-");
        }
        push_decimal(&mut out, seconds);
        out.append("s");
        assert(out@ =~= gitlab_time_text(total_seconds as int));
    }
    out
}

} // verus!
