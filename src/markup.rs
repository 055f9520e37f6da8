//! Pause directives: `<break time="X.Xs"/>`, with the time in seconds to one
//! decimal place.
use vstd::prelude::*;

verus! {

/// The decimal digit `d` as a character.
pub open spec fn digit(d: nat) -> char {
    if d == 0 {
        '0'
    } else if d == 1 {
        '1'
    } else if d == 2 {
        '2'
    } else if d == 3 {
        '3'
    } else if d == 4 {
        '4'
    } else if d == 5 {
        '5'
    } else if d == 6 {
        '6'
    } else if d == 7 {
        '7'
    } else if d == 8 {
        '8'
    } else {
        '9'
    }
}

/// `n` written in decimal, without leading zeros.
pub open spec fn decimal(n: nat) -> Seq<char>
    decreases n,
{
    if n < 10 {
        seq![digit(n)]
    } else {
        decimal(n / 10).push(digit(n % 10))
    }
}

/// A number of milliseconds written as seconds with one decimal place,
/// rounded to the nearest tenth (halves upward).
pub open spec fn seconds_text(ms: nat) -> Seq<char> {
    let tenths = (ms + 50) / 100;
    decimal(tenths / 10) + seq!['.', digit(tenths % 10)]
}

pub open spec fn tag_open() -> Seq<char> {
    seq!['<', 'b', 'r', 'e', 'a', 'k', ' ', 't', 'i', 'm', 'e', '=', '"']
}

pub open spec fn tag_close() -> Seq<char> {
    seq!['s', '"', '/', '>']
}

/// One pause directive of `ms` milliseconds.
pub open spec fn break_tag(ms: nat) -> Seq<char> {
    tag_open() + seconds_text(ms) + tag_close()
}

fn digit_str(d: u128) -> (r: &'static str)
    requires
        d < 10,
    ensures
        r@ == seq![digit(d as nat)],
{
    if d == 0 {
        proof { reveal_strlit("0"); assert("0"@ =~= seq!['0']); }
        "0"
    } else if d == 1 {
        proof { reveal_strlit("1"); assert("1"@ =~= seq!['1']); }
        "1"
    } else if d == 2 {
        proof { reveal_strlit("2"); assert("2"@ =~= seq!['2']); }
        "2"
    } else if d == 3 {
        proof { reveal_strlit("3"); assert("3"@ =~= seq!['3']); }
        "3"
    } else if d == 4 {
        proof { reveal_strlit("4"); assert("4"@ =~= seq!['4']); }
        "4"
    } else if d == 5 {
        proof { reveal_strlit("5"); assert("5"@ =~= seq!['5']); }
        "5"
    } else if d == 6 {
        proof { reveal_strlit("6"); assert("6"@ =~= seq!['6']); }
        "6"
    } else if d == 7 {
        proof { reveal_strlit("7"); assert("7"@ =~= seq!['7']); }
        "7"
    } else if d == 8 {
        proof { reveal_strlit("8"); assert("8"@ =~= seq!['8']); }
        "8"
    } else {
        proof { reveal_strlit("9"); assert("9"@ =~= seq!['9']); }
        "9"
    }
}

/// Appends `n` in decimal to `out`.
fn push_decimal(out: &mut String, n: u128)
    ensures
        final(out)@ == old(out)@ + decimal(n as nat),
    decreases n,
{
    if n >= 10 {
        push_decimal(out, n / 10);
    }
    out.append(digit_str(n % 10));
    proof {
        if n < 10 {
            assert(old(out)@ + decimal(n as nat) =~= old(out)@ + seq![digit(n as nat)]);
        } else {
            assert(old(out)@ + decimal(n as nat) =~= old(out)@ + decimal((n / 10) as nat) + seq![
                digit((n % 10) as nat),
            ]);
        }
    }
}

/// Appends one pause directive of `ms` milliseconds to `out`.
pub fn push_break_tag(out: &mut String, ms: u128)
    ensures
        final(out)@ == old(out)@ + break_tag(ms as nat),
{
    let ghost start = out@;
    proof {
        reveal_strlit("<break time=\"");
        reveal_strlit("s\"/>");
        reveal_strlit(".");
        assert("<break time=\""@ =~= tag_open());
        assert("s\"/>"@ =~= tag_close());
        assert("."@ =~= seq!['.']);
    }
    out.append("<break time=\"");
    let tenths = ms / 100 + if ms % 100 >= 50 { 1 } else { 0 };
    assert(tenths == (ms + 50) / 100);
    push_decimal(out, tenths / 10);
    out.append(".");
    out.append(digit_str(tenths % 10));
    out.append("s\"/>");
    proof {
        assert(out@ =~= start + break_tag(ms as nat));
    }
}

} // verus!
