//! Text helpers: line endings for a raw-mode terminal, and fixed-width
//! decimal fields.

use vstd::prelude::*;
use vstd::std_specs::iter::IteratorSpec;

verus! {

broadcast use vstd::string::group_string_axioms;

/// What one character becomes on a terminal in raw mode: a line feed gains a
/// carriage return in front of it, every other character stays as it is.
pub open spec fn terminal_char(c: char) -> Seq<char> {
    if c == '\n' {
        seq!['\r', '\n']
    } else {
        seq![c]
    }
}

/// `s` with every line feed replaced by carriage return and line feed.
pub open spec fn terminal_lines(s: Seq<char>) -> Seq<char>
    decreases s.len(),
{
    if s.len() == 0 {
        Seq::empty()
    } else {
        terminal_lines(s.drop_last()) + terminal_char(s.last())
    }
}

/// The character of one decimal digit.
pub open spec fn digit(d: int) -> char
    recommends
        0 <= d <= 9,
{
    (('0' as int) + d) as char
}

/// `n` as two decimal digits, with a leading zero where it is below ten.
pub open spec fn two_digits(n: int) -> Seq<char>
    recommends
        0 <= n <= 99,
{
    seq![digit(n / 10), digit(n % 10)]
}

/// `n` as three decimal digits, with leading zeros where it is short.
pub open spec fn three_digits(n: int) -> Seq<char>
    recommends
        0 <= n <= 999,
{
    seq![digit(n / 100), digit(n / 10 % 10), digit(n % 10)]
}

/// `String::push`: the string grows by exactly the given character.
#[verifier::external_body]
pub(crate) fn push_char(s: &mut String, c: char)
    ensures
        final(s)@ == old(s)@.push(c),
{
    s.push(c)
}

/// Rewrites embedded line feeds to the terminal's line ending.
pub fn to_terminal_lines(s: &str) -> (out: String)
    ensures
        out@ == terminal_lines(s@),
{
    let mut out = String::new();
    let mut rest = s.chars();
    let ghost mut done: Seq<char> = Seq::empty();
    assert(terminal_lines(done) == Seq::<char>::empty());
    loop
        invariant
            done + rest.remaining() == s@,
            out@ == terminal_lines(done),
            rest.decrease() is Some,
        decreases rest.decrease()->0,
    {
        match rest.next() {
            Some(c) => {
                proof {
                    let grown = done.push(c);
                    assert(grown.drop_last() == done);
                    assert(grown.last() == c);
                    assert(grown + rest.remaining() == s@);
                    done = grown;
                }
                if c == '\n' {
                    out.append("\r\n");
                    proof {
                        reveal_strlit("\r\n");
                        assert("\r\n"@ == seq!['\r', '\n']);
                    }
                } else {
                    push_char(&mut out, c);
                    assert(seq![c] == Seq::<char>::empty().push(c));
                }
            },
            None => {
                assert(done == s@);
                return out;
            },
        }
    }
}

} // verus!
