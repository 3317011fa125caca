//! Decimal rendering of the integers that appear in labels: synthesized
//! process names, version strings and per-device error messages.

use vstd::prelude::*;
use vstd::string::StringExecFns;

verus! {

/// The character for one decimal digit `d` (`0 <= d < 10`).
pub open spec fn digit_char(d: nat) -> char {
    if d == 0 {
        '0'
    } else if d == 1 {
        '1'
    } else if d == 2 {
        '2'
    } else if d == 3 {
        '3'
    } else if d == 4 {
        '4'
    } else if d == 5 {
        '5'
    } else if d == 6 {
        '6'
    } else if d == 7 {
        '7'
    } else if d == 8 {
        '8'
    } else {
        '9'
    }
}

/// The decimal digits of `n`, most significant first, with no leading
/// zeros (a single `'0'` for zero itself).
pub open spec fn dec_digits(n: nat) -> Seq<char>
    decreases n,
{
    if n < 10 {
        seq![digit_char(n)]
    } else {
        dec_digits(n / 10).push(digit_char(n % 10))
    }
}

/// Appends the character for the single decimal digit `d` to `out`.
fn append_digit(out: &mut String, d: u32)
    requires
        d < 10,
    ensures
        final(out)@ == old(out)@ + seq![digit_char(d as nat)],
{
    if d == 0 {
        out.append("0");
        proof {
            reveal_strlit("0");
            assert("0"@ =~= seq!['0']);
        }
    } else if d == 1 {
        out.append("1");
        proof {
            reveal_strlit("1");
            assert("1"@ =~= seq!['1']);
        }
    } else if d == 2 {
        out.append("2");
        proof {
            reveal_strlit("2");
            assert("2"@ =~= seq!['2']);
        }
    } else if d == 3 {
        out.append("3");
        proof {
            reveal_strlit("3");
            assert("3"@ =~= seq!['3']);
        }
    } else if d == 4 {
        out.append("4");
        proof {
            reveal_strlit("4");
            assert("4"@ =~= seq!['4']);
        }
    } else if d == 5 {
        out.append("5");
        proof {
            reveal_strlit("5");
            assert("5"@ =~= seq!['5']);
        }
    } else if d == 6 {
        out.append("6");
        proof {
            reveal_strlit("6");
            assert("6"@ =~= seq!['6']);
        }
    } else if d == 7 {
        out.append("7");
        proof {
            reveal_strlit("7");
            assert("7"@ =~= seq!['7']);
        }
    } else if d == 8 {
        out.append("8");
        proof {
            reveal_strlit("8");
            assert("8"@ =~= seq!['8']);
        }
    } else {
        out.append("9");
        proof {
            reveal_strlit("9");
            assert("9"@ =~= seq!['9']);
        }
    }
}

/// Appends the decimal rendering of `n` to `out`.
pub fn append_u32_dec(out: &mut String, n: u32)
    ensures
        final(out)@ == old(out)@ + dec_digits(n as nat),
    decreases n,
{
    if n >= 10 {
        append_u32_dec(out, n / 10);
        append_digit(out, n % 10);
        proof {
            assert(out@ =~= old(out)@ + dec_digits(n as nat));
        }
    } else {
        append_digit(out, n);
    }
}

/// The decimal rendering of `n` as a fresh string.
pub fn u32_to_dec(n: u32) -> (s: String)
    ensures
        s@ == dec_digits(n as nat),
{
    let mut s = String::new();
    append_u32_dec(&mut s, n);
    proof {
        assert(s@ =~= dec_digits(n as nat));
    }
    s
}

/// The synthesized display name for a process whose OS lookup missed.
pub open spec fn pid_label_spec(pid: nat) -> Seq<char> {
    "PID "@ + dec_digits(pid)
}

/// Builds the `"PID {pid}"` fallback label.
pub fn pid_label(pid: u32) -> (s: String)
    ensures
        s@ == pid_label_spec(pid as nat),
{
    let mut s = String::from_str("PID ");
    append_u32_dec(&mut s, pid);
    s
}

/// The `"{major}.{minor}"` rendering of a runtime version.
pub open spec fn version_label_spec(major: nat, minor: nat) -> Seq<char> {
    dec_digits(major) + "."@ + dec_digits(minor)
}

/// Builds the `"{major}.{minor}"` version string.
pub fn version_label(major: u32, minor: u32) -> (s: String)
    ensures
        s@ == version_label_spec(major as nat, minor as nat),
{
    let mut s = u32_to_dec(major);
    s.append(".");
    append_u32_dec(&mut s, minor);
    proof {
        assert(s@ =~= version_label_spec(major as nat, minor as nat));
    }
    s
}

/// The placeholder device name used before the first successful poll of a
/// device: `"GPU {index} (error)"`.
pub open spec fn device_error_name_spec(index: nat) -> Seq<char> {
    "GPU "@ + dec_digits(index) + " (error)"@
}

/// Builds the `"GPU {index} (error)"` placeholder name.
pub fn device_error_name(index: u32) -> (s: String)
    ensures
        s@ == device_error_name_spec(index as nat),
{
    let mut s = String::from_str("GPU ");
    append_u32_dec(&mut s, index);
    s.append(" (error)");
    proof {
        assert(s@ =~= device_error_name_spec(index as nat));
    }
    s
}

/// The advisory message surfaced when polling one device fails:
/// `"GPU {index} poll error: {detail}"`.
pub open spec fn poll_error_spec(index: nat, detail: Seq<char>) -> Seq<char> {
    "GPU "@ + dec_digits(index) + " poll error: "@ + detail
}

/// Builds the `"GPU {index} poll error: {detail}"` message.
pub fn poll_error_label(index: u32, detail: &str) -> (s: String)
    ensures
        s@ == poll_error_spec(index as nat, detail@),
{
    let mut s = String::from_str("GPU ");
    append_u32_dec(&mut s, index);
    s.append(" poll error: ");
    s.append(detail);
    proof {
        assert(s@ =~= poll_error_spec(index as nat, detail@));
    }
    s
}

} // verus!
