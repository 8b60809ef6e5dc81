use vstd::prelude::*;
use vstd::string::StringExecFns;
use crate::text::string_push;

verus! {

/// The decimal digit character for `d < 10`.
pub open spec fn digit_char(d: nat) -> char {
    if d == 0 { '0' }
    else if d == 1 { '1' }
    else if d == 2 { '2' }
    else if d == 3 { '3' }
    else if d == 4 { '4' }
    else if d == 5 { '5' }
    else if d == 6 { '6' }
    else if d == 7 { '7' }
    else if d == 8 { '8' }
    else { '9' }
}

/// The decimal notation of `n`, without leading zeros (`0` is "0").
pub open spec fn decimal(n: nat) -> Seq<char>
    decreases n,
{
    if n < 10 {
        seq![digit_char(n)]
    } else {
        decimal(n / 10).push(digit_char(n % 10))
    }
}

/// Whole hours in `seconds`.
pub open spec fn hours_of(seconds: u64) -> nat {
    (seconds / 3600) as nat
}

/// Whole minutes left over after the whole hours.
pub open spec fn minutes_of(seconds: u64) -> nat {
    ((seconds % 3600) / 60) as nat
}

/// Seconds left over after the whole minutes.
pub open spec fn seconds_of(seconds: u64) -> nat {
    (seconds % 60) as nat
}

/// The text shown for a duration: under a minute "S seconds", under an
/// hour "M minutes, S seconds", otherwise "H hours, M minutes".
pub open spec fn duration_text(seconds: u64) -> Seq<char> {
    let h = hours_of(seconds);
    let m = minutes_of(seconds);
    let s = seconds_of(seconds);
    if h == 0 && m == 0 {
        decimal(s) + " seconds"@
    } else if h == 0 {
        decimal(m) + " minutes, "@ + decimal(s) + " seconds"@
    } else {
        decimal(h) + " hours, "@ + decimal(m) + " minutes"@
    }
}

fn digit(d: u64) -> (c: char)
    requires
        d < 10,
    ensures
        c == digit_char(d as nat),
{
    if d == 0 { '0' }
    else if d == 1 { '1' }
    else if d == 2 { '2' }
    else if d == 3 { '3' }
    else if d == 4 { '4' }
    else if d == 5 { '5' }
    else if d == 6 { '6' }
    else if d == 7 { '7' }
    else if d == 8 { '8' }
    else { '9' }
}

/// Appends the decimal notation of `n` to `s`.
pub fn push_decimal(s: &mut String, n: u64)
    ensures
        final(s)@ == old(s)@ + decimal(n as nat),
    decreases n,
{
    if n >= 10 {
        push_decimal(s, n / 10);
    }
    string_push(s, digit(n % 10));
    assert(final(s)@ =~= old(s)@ + decimal(n as nat));
}

/// Renders a number of seconds as the text the timer list shows.
pub fn format_duration(seconds: u64) -> (r: String)
    ensures
        r@ == duration_text(seconds),
{
    let hours = seconds / 3600;
    let minutes = (seconds % 3600) / 60;
    let secs = seconds % 60;
    let mut out = String::new();
    if hours == 0 && minutes == 0 {
        push_decimal(&mut out, secs);
        out.append(" seconds");
    } else if hours == 0 {
        push_decimal(&mut out, minutes);
        out.append(" minutes, ");
        push_decimal(&mut out, secs);
        out.append(" seconds");
    } else {
        push_decimal(&mut out, hours);
        out.append(" hours, ");
        push_decimal(&mut out, minutes);
        out.append(" minutes");
    }
    assert(out@ =~= duration_text(seconds));
    out
}

/// The number a character shows, for a decimal digit.
pub open spec fn digit_value(c: char) -> int {
    (c as u32) as int - ('0' as u32) as int
}

/// The number that a string of decimal digits denotes.
pub open spec fn digits_value(s: Seq<char>) -> int
    decreases s.len(),
{
    if s.len() == 0 { 0 } else { digits_value(s.drop_last()) * 10 + digit_value(s.last()) }
}

proof fn lemma_digit_value(d: nat)
    requires
        d < 10,
    ensures
        digit_value(digit_char(d)) == d,
        '0' <= digit_char(d) <= '9',
        d > 0 ==> digit_char(d) != '0',
{
}

/// The decimal text of `n` is made of digits, denotes `n`, and has no
/// leading zero unless it is "0".
pub proof fn lemma_decimal_denotes(n: nat)
    ensures
        decimal(n).len() > 0,
        digits_value(decimal(n)) == n,
        forall|i: int| 0 <= i < decimal(n).len() ==> '0' <= #[trigger] decimal(n)[i] <= '9',
        n > 0 ==> decimal(n)[0] != '0',
    decreases n,
{
    lemma_digit_value((n % 10) as nat);
    if n < 10 {
        assert(decimal(n).drop_last() =~= Seq::<char>::empty());
        assert(n % 10 == n);
        assert(decimal(n).last() == digit_char(n));
        assert(digits_value(decimal(n)) == digits_value(decimal(n).drop_last()) * 10 + digit_value(decimal(n).last()));
    } else {
        lemma_decimal_denotes(n / 10);
        assert(n == (n / 10) * 10 + n % 10);
        let d = decimal(n);
        assert(d.drop_last() =~= decimal(n / 10));
        assert(d.last() == digit_char((n % 10) as nat));
        assert(digits_value(d) == digits_value(d.drop_last()) * 10 + digit_value(d.last()));
        assert forall|i: int| 0 <= i < d.len() implies '0' <= #[trigger] d[i] <= '9' by {
            if i < d.len() - 1 {
                assert(d[i] == decimal(n / 10)[i]);
            }
        }
        assert(d[0] == decimal(n / 10)[0]);
    }
}

/// Hours, minutes and seconds split a duration exactly, with minutes and
/// seconds under 60.
pub proof fn lemma_duration_parts(seconds: u64)
    ensures
        hours_of(seconds) * 3600 + minutes_of(seconds) * 60 + seconds_of(seconds) == seconds,
        minutes_of(seconds) < 60,
        seconds_of(seconds) < 60,
{
}

} // verus!
