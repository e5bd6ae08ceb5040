//! The line that a client writes for a message of its user: the time of
//! day, the user's name and the body. The relay passes it on as it is.

use crate::presence::{append_decimal, decimal_text};
use vstd::prelude::*;
use vstd::string::*;

verus! {

/// The decimal numeral of `n` in at least two digits: one leading zero
/// below ten, and the full numeral from there on.
pub open spec fn two_digit_text(n: nat) -> Seq<char> {
    if n < 10 {
        seq!['0'] + decimal_text(n)
    } else {
        decimal_text(n)
    }
}

/// The chat line `[HH:MM] name: body`.
pub open spec fn chat_line_text(hours: nat, minutes: nat, name: Seq<char>, body: Seq<char>) -> Seq<
    char,
> {
    seq!['['] + two_digit_text(hours) + seq![':'] + two_digit_text(minutes) + seq![']', ' '] + name
        + seq![':', ' '] + body
}

/// Appends `n` in at least two digits to `text`.
fn append_two_digits(text: &mut String, n: u32)
    ensures
        final(text)@ == old(text)@ + two_digit_text(n as nat),
{
    proof {
        reveal_strlit("0");
    }
    if n < 10 {
        text.append("0");
    }
    let ghost padded = text@;
    append_decimal(text, n as usize);
    proof {
        if n < 10 {
            assert(padded =~= old(text)@ + seq!['0']);
            assert(final(text)@ =~= old(text)@ + (seq!['0'] + decimal_text(n as nat)));
        }
    }
}

/// Builds the chat line for a message sent at `hours`:`minutes` by `name`.
pub fn chat_line(hours: u32, minutes: u32, name: &str, body: &str) -> (line: String)
    ensures
        line@ == chat_line_text(hours as nat, minutes as nat, name@, body@),
{
    proof {
        reveal_strlit("[");
        reveal_strlit(":");
        reveal_strlit("] ");
        reveal_strlit(": ");
    }
    let mut line = String::from_str("[");
    assert(line@ =~= seq!['[']);
    append_two_digits(&mut line, hours);
    line.append(":");
    append_two_digits(&mut line, minutes);
    line.append("] ");
    line.append(name);
    line.append(": ");
    line.append(body);
    assert(line@ =~= chat_line_text(hours as nat, minutes as nat, name@, body@));
    line
}

} // verus!
