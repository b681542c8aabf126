use crate::kinds::Kind;
use vstd::prelude::*;
use vstd::string::StringExecFns;

verus! {

/// The decimal digit character for `d`.
pub open spec fn digit_char(d: int) -> char {
    if d == 0 {
        '0'
    } else if d == 1 {
        '1'
    } else if d == 2 {
        '2'
    } else if d == 3 {
        '3'
    } else if d == 4 {
        '4'
    } else if d == 5 {
        '5'
    } else if d == 6 {
        '6'
    } else if d == 7 {
        '7'
    } else if d == 8 {
        '8'
    } else {
        '9'
    }
}

/// The decimal digits of `n`, most significant first, without a sign.
pub open spec fn dec_chars(n: nat) -> Seq<char>
    decreases n,
{
    if n < 10 {
        seq![digit_char(n as int)]
    } else {
        dec_chars(n / 10).push(digit_char((n % 10) as int))
    }
}

/// The decimal rendering of `n`, with a leading minus sign when negative.
pub open spec fn int_chars(n: int) -> Seq<char> {
    if n < 0 {
        seq!['-'] + dec_chars((-n) as nat)
    } else {
        dec_chars(n as nat)
    }
}

/// The namespace directory of the process with the given id.
pub open spec fn ns_dir_chars(pid: int) -> Seq<char> {
    "/proc/"@ + int_chars(pid) + "/ns/"@
}

/// The path of the link read for the given process and kind: the kind's
/// entry in the process's namespace directory.
pub open spec fn link_path_chars(pid: int, k: Kind) -> Seq<char> {
    ns_dir_chars(pid) + k.file_name_spec()
}

fn digit_str(d: u32) -> (s: &'static str)
    requires
        d < 10,
    ensures
        s@ == seq![digit_char(d as int)],
{
    proof {
        reveal_strlit("0");
        reveal_strlit("1");
        reveal_strlit("2");
        reveal_strlit("3");
        reveal_strlit("4");
        reveal_strlit("5");
        reveal_strlit("6");
        reveal_strlit("7");
        reveal_strlit("8");
        reveal_strlit("9");
    }
    let s = if d == 0 {
        "0"
    } else if d == 1 {
        "1"
    } else if d == 2 {
        "2"
    } else if d == 3 {
        "3"
    } else if d == 4 {
        "4"
    } else if d == 5 {
        "5"
    } else if d == 6 {
        "6"
    } else if d == 7 {
        "7"
    } else if d == 8 {
        "8"
    } else {
        "9"
    };
    proof {
        assert(s@ =~= seq![digit_char(d as int)]);
    }
    s
}

/// Appends the decimal digits of `n` to `out`.
fn push_dec(n: u32, out: &mut String)
    ensures
        final(out)@ == old(out)@ + dec_chars(n as nat),
    decreases n,
{
    if n >= 10 {
        push_dec(n / 10, out);
        out.append(digit_str(n % 10));
        proof {
            assert(old(out)@ + dec_chars(n as nat) =~= old(out)@ + dec_chars((n / 10) as nat)
                + seq![digit_char((n % 10) as int)]);
        }
    } else {
        out.append(digit_str(n));
        proof {
            assert(old(out)@ + dec_chars(n as nat) =~= old(out)@ + seq![digit_char(n as int)]);
        }
    }
}

/// Renders `n` in decimal, with a leading minus sign when negative.
pub fn int_string(n: i32) -> (s: String)
    ensures
        s@ == int_chars(n as int),
{
    let mut s = String::new();
    if n < 0 {
        s.append("-");
        let mag: u32 = (-(n as i64)) as u32;
        push_dec(mag, &mut s);
        proof {
            reveal_strlit("-");
            assert(s@ =~= seq!['-'] + dec_chars((-(n as int)) as nat));
        }
    } else {
        push_dec(n as u32, &mut s);
        proof {
            assert(s@ =~= dec_chars(n as nat));
        }
    }
    s
}

/// Builds the path of the namespace link for the given process and kind.
pub fn link_path(pid: i32, kind: Kind) -> (s: String)
    ensures
        s@ == link_path_chars(pid as int, kind),
{
    let mut s = "/proc/".to_owned();
    let digits = int_string(pid);
    s.append(digits.as_str());
    s.append("/ns/");
    s.append(kind.file_name());
    proof {
        assert(s@ =~= link_path_chars(pid as int, kind));
    }
    s
}

} // verus!
