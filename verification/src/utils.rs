//! Small helpers: terminal hyperlinks for issues, and the decision of the
//! yes/no prompt.

use vstd::prelude::*;
use vstd::string::StringExecFns;

verus! {

/// The decimal digit character for `d`.
pub open spec fn spec_digit_char(d: int) -> char {
    if d == 0 {
        '0'
    } else if d == 1 {
        '1'
    } else if d == 2 {
        '2'
    } else if d == 3 {
        '3'
    } else if d == 4 {
        '4'
    } else if d == 5 {
        '5'
    } else if d == 6 {
        '6'
    } else if d == 7 {
        '7'
    } else if d == 8 {
        '8'
    } else {
        '9'
    }
}

/// The decimal digits of a nonnegative number, most significant first.
pub open spec fn spec_decimal_digits(n: int) -> Seq<char>
    decreases n,
{
    if n < 10 {
        seq![spec_digit_char(n)]
    } else {
        spec_decimal_digits(n / 10) + seq![spec_digit_char(n % 10)]
    }
}

/// The decimal rendering of a signed number: a minus sign, then the digits
/// of its magnitude.
pub open spec fn spec_decimal(n: int) -> Seq<char> {
    if n < 0 {
        seq!['-'] + spec_decimal_digits(-n)
    } else {
        spec_decimal_digits(n)
    }
}

fn digit_str(d: u8) -> (r: &'static str)
    requires
        d < 10,
    ensures
        r@ == seq![spec_digit_char(d as int)],
{
    proof {
        reveal_strlit("0");
        reveal_strlit("1");
        reveal_strlit("2");
        reveal_strlit("3");
        reveal_strlit("4");
        reveal_strlit("5");
        reveal_strlit("6");
        reveal_strlit("7");
        reveal_strlit("8");
        reveal_strlit("9");
    }
    let r = match d {
        0 => "0",
        1 => "1",
        2 => "2",
        3 => "3",
        4 => "4",
        5 => "5",
        6 => "6",
        7 => "7",
        8 => "8",
        _ => "9",
    };
    proof {
        assert(r@ =~= seq![spec_digit_char(d as int)]);
    }
    r
}

fn append_uint(s: &mut String, n: u64)
    ensures
        final(s)@ == old(s)@ + spec_decimal_digits(n as int),
    decreases n,
{
    if n < 10 {
        s.append(digit_str(n as u8));
    } else {
        append_uint(s, n / 10);
        s.append(digit_str((n % 10) as u8));
    }
    proof {
        assert(s@ =~= old(s)@ + spec_decimal_digits(n as int));
    }
}

/// Append the decimal rendering of `n`.
fn append_int(s: &mut String, n: i32)
    ensures
        final(s)@ == old(s)@ + spec_decimal(n as int),
{
    if n < 0 {
        s.append("-");
        proof {
            reveal_strlit("-");
        }
        let m = -(n as i64);
        append_uint(s, m as u64);
        proof {
            assert(s@ =~= old(s)@ + spec_decimal(n as int));
        }
    } else {
        append_uint(s, n as u64);
    }
}

/// The terminal hyperlink that renders issue `issue` as `#issue`, pointing
/// into the project's issue tracker.
pub open spec fn spec_issue_link(issue: i32, url: Seq<char>) -> Seq<char> {
    "\u{1b}]8;;"@ + url + "/issues/"@ + spec_decimal(issue as int) + "\u{1b}\\#"@ + spec_decimal(
        issue as int,
    ) + "\u{1b}]8;;\u{1b}\\"@
}

/// Format an issue number as a terminal hyperlink into the project's issue
/// tracker.
pub fn fmt_issue_linked(issue: i32, project_url: &str) -> (r: String)
    ensures
        r@ == spec_issue_link(issue, project_url@),
{
    let mut s = String::new();
    s.append("\u{1b}]8;;");
    s.append(project_url);
    s.append("/issues/");
    append_int(&mut s, issue);
    s.append("\u{1b}\\#");
    append_int(&mut s, issue);
    s.append("\u{1b}]8;;\u{1b}\\");
    proof {
        assert(s@ =~= spec_issue_link(issue, project_url@));
    }
    s
}

/// How many times a prompt is retried before giving up.
pub const MAX_ATTEMPTS: u32 = 3;

/// The decision of the yes/no prompt for one typed character: `y`, `Y` and
/// newline confirm, `n` and `N` decline, anything else asks again.
pub fn yn_answer(c: char) -> (r: Option<bool>)
    ensures
        (c == 'y' || c == 'Y' || c == '\n') ==> r == Some(true),
        (c == 'n' || c == 'N') ==> r == Some(false),
        !(c == 'y' || c == 'Y' || c == '\n' || c == 'n' || c == 'N') ==> r is None,
{
    match c {
        'y' | 'Y' | '\n' => Some(true),
        'n' | 'N' => Some(false),
        _ => None,
    }
}

} // verus!
