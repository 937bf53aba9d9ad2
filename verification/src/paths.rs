//! Rendering the location a freshly created record is redirected to:
//! `/friends/{id}`, with the id written in decimal.

use vstd::prelude::*;

verus! {

/// The character for one decimal digit.
pub open spec fn digit_char(d: int) -> char {
    if d == 0 {
        '0'
    } else if d == 1 {
        '1'
    } else if d == 2 {
        '2'
    } else if d == 3 {
        '3'
    } else if d == 4 {
        '4'
    } else if d == 5 {
        '5'
    } else if d == 6 {
        '6'
    } else if d == 7 {
        '7'
    } else if d == 8 {
        '8'
    } else {
        '9'
    }
}

/// The decimal writing of `n`, most significant digit first, no leading
/// zeros (except for `n == 0`, written "0").
pub open spec fn dec_rep(n: nat) -> Seq<char>
    decreases n,
{
    if n < 10 {
        seq![digit_char(n as int)]
    } else {
        dec_rep(n / 10).push(digit_char((n % 10) as int))
    }
}

/// The path a created record's id redirects to.
pub open spec fn friend_path_spec(id: nat) -> Seq<char> {
    "/friends/"@ + dec_rep(id)
}

/// The one-character string for a decimal digit.
fn digit_str(d: u32) -> (r: &'static str)
    requires
        d < 10,
    ensures
        r@ =~= seq![digit_char(d as int)],
{
    proof {
        reveal_strlit("0");
        reveal_strlit("1");
        reveal_strlit("2");
        reveal_strlit("3");
        reveal_strlit("4");
        reveal_strlit("5");
        reveal_strlit("6");
        reveal_strlit("7");
        reveal_strlit("8");
        reveal_strlit("9");
    }
    if d == 0 {
        "0"
    } else if d == 1 {
        "1"
    } else if d == 2 {
        "2"
    } else if d == 3 {
        "3"
    } else if d == 4 {
        "4"
    } else if d == 5 {
        "5"
    } else if d == 6 {
        "6"
    } else if d == 7 {
        "7"
    } else if d == 8 {
        "8"
    } else {
        "9"
    }
}

/// Appends the decimal writing of `n` to `s`.
fn push_dec(s: &mut String, n: u32)
    ensures
        final(s)@ =~= old(s)@ + dec_rep(n as nat),
    decreases n,
{
    if n < 10 {
        s.append(digit_str(n));
    } else {
        push_dec(s, n / 10);
        s.append(digit_str(n % 10));
        proof {
            assert(old(s)@ + dec_rep((n / 10) as nat) + seq![
                digit_char((n % 10) as int),
            ] =~= old(s)@ + dec_rep(n as nat));
        }
    }
}

/// The decimal writing of `n` as a string.
pub fn dec_string(n: u32) -> (r: String)
    ensures
        r@ =~= dec_rep(n as nat),
{
    let mut s = String::new();
    push_dec(&mut s, n);
    s
}

/// The location of the record with (non-negative) id `id`: `/friends/{id}`.
pub fn friend_path(id: i32) -> (r: String)
    requires
        id >= 0,
    ensures
        r@ =~= friend_path_spec(id as nat),
{
    let mut s = String::from_str("/friends/");
    push_dec(&mut s, id as u32);
    s
}

} // verus!
