//! The run reporter.
//!
//! Everything the program prints is produced here as a plain value, so the
//! exact text is pinned down: the verbose marker line before a dispatch,
//! the diagnostic after a failed dispatch, and the usage and help text.
//! The binary only forwards these lines to standard output or error.

use vstd::prelude::*;
use vstd::string::StringExecFns;

verus! {

/// The outcome of one completed dispatch: whether the child succeeded, and
/// its exit code, absent when the child was terminated by a signal.
pub struct ExitStatus {
    /// Whether the child terminated successfully.
    pub success: bool,
    /// The child's exit code; `None` means termination by signal.
    pub code: Option<i32>,
}

/// The character for one decimal digit.
pub open spec fn digit_char(d: nat) -> char {
    if d == 0 {
        '0'
    } else if d == 1 {
        '1'
    } else if d == 2 {
        '2'
    } else if d == 3 {
        '3'
    } else if d == 4 {
        '4'
    } else if d == 5 {
        '5'
    } else if d == 6 {
        '6'
    } else if d == 7 {
        '7'
    } else if d == 8 {
        '8'
    } else {
        '9'
    }
}

/// The decimal digits of `n`, most significant first, no leading zeros
/// except for `n == 0` itself.
pub open spec fn dec_rep(n: nat) -> Seq<char>
    decreases n,
{
    if n < 10 {
        seq![digit_char(n)]
    } else {
        dec_rep(n / 10).push(digit_char(n % 10))
    }
}

/// The decimal rendering of a possibly negative number.
pub open spec fn int_rep(n: int) -> Seq<char> {
    if n < 0 {
        seq!['-'] + dec_rep((-n) as nat)
    } else {
        dec_rep(n as nat)
    }
}

fn digit_str(d: u64) -> (s: &'static str)
    requires
        d < 10,
    ensures
        s@ == seq![digit_char(d as nat)],
{
    if d == 0 {
        proof {
            reveal_strlit("0");
        }
        assert("0"@ =~= seq![digit_char(0)]);
        "0"
    } else if d == 1 {
        proof {
            reveal_strlit("1");
        }
        assert("1"@ =~= seq![digit_char(1)]);
        "1"
    } else if d == 2 {
        proof {
            reveal_strlit("2");
        }
        assert("2"@ =~= seq![digit_char(2)]);
        "2"
    } else if d == 3 {
        proof {
            reveal_strlit("3");
        }
        assert("3"@ =~= seq![digit_char(3)]);
        "3"
    } else if d == 4 {
        proof {
            reveal_strlit("4");
        }
        assert("4"@ =~= seq![digit_char(4)]);
        "4"
    } else if d == 5 {
        proof {
            reveal_strlit("5");
        }
        assert("5"@ =~= seq![digit_char(5)]);
        "5"
    } else if d == 6 {
        proof {
            reveal_strlit("6");
        }
        assert("6"@ =~= seq![digit_char(6)]);
        "6"
    } else if d == 7 {
        proof {
            reveal_strlit("7");
        }
        assert("7"@ =~= seq![digit_char(7)]);
        "7"
    } else if d == 8 {
        proof {
            reveal_strlit("8");
        }
        assert("8"@ =~= seq![digit_char(8)]);
        "8"
    } else {
        proof {
            reveal_strlit("9");
        }
        assert("9"@ =~= seq![digit_char(9)]);
        "9"
    }
}

/// Renders an unsigned number in decimal.
pub fn u64_dec(n: u64) -> (s: String)
    ensures
        s@ == dec_rep(n as nat),
    decreases n,
{
    if n < 10 {
        String::from_str(digit_str(n))
    } else {
        let rec = u64_dec(n / 10);
        let s = rec.concat(digit_str(n % 10));
        proof {
            assert((n / 10) as nat == (n as nat) / 10);
            assert((n % 10) as nat == (n as nat) % 10);
            assert(s@ =~= dec_rep(n as nat));
        }
        s
    }
}

/// Renders a signed exit code in decimal.
pub fn i32_dec(code: i32) -> (s: String)
    ensures
        s@ == int_rep(code as int),
{
    let wide: i64 = code as i64;
    if wide < 0 {
        let mag: u64 = (-wide) as u64;
        let s = String::from_str("-").concat(u64_dec(mag).as_str());
        proof {
            reveal_strlit("-");
            assert("-"@ =~= seq!['-']);
            assert(s@ =~= int_rep(code as int));
        }
        s
    } else {
        u64_dec(wide as u64)
    }
}

/// The diagnostic text for one failed dispatch, by exit code.
pub open spec fn diagnostic_text(code: Option<i32>) -> Seq<char> {
    match code {
        None => "process didn't exit successfully (terminated by signal)"@,
        Some(c) => "process didn't exit successfully (exit code: "@ + int_rep(c as int) + ")"@,
    }
}

/// The diagnostic after one dispatch. Quiet runs print nothing; successful
/// dispatches print nothing; otherwise the line distinguishes termination
/// by signal from a non-zero exit code.
pub fn failure_diagnostic(quiet: bool, status: &ExitStatus) -> (line: Option<String>)
    ensures
        match line {
            Option::Some(l) => !quiet && !status.success && l@ == diagnostic_text(status.code),
            Option::None => quiet || status.success,
        },
{
    if quiet || status.success {
        return None;
    }
    match status.code {
        None => Some(
            String::from_str("process didn't exit successfully (terminated by signal)"),
        ),
        Some(c) => {
            let line = String::from_str("process didn't exit successfully (exit code: ").concat(
                i32_dec(c).as_str(),
            ).concat(")");
            proof {
                assert(line@ =~= diagnostic_text(status.code));
            }
            Some(line)
        },
    }
}

/// The marker line naming a candidate directory.
pub open spec fn marker_text(name: Seq<char>) -> Seq<char> {
    ">> "@ + name
}

/// The marker line printed immediately before a dispatch: exactly one line
/// naming the directory when the run is verbose, nothing otherwise.
pub fn verbose_marker(verbose: bool, name: &str) -> (line: Option<String>)
    ensures
        match line {
            Option::Some(l) => verbose && l@ == marker_text(name@),
            Option::None => !verbose,
        },
{
    if verbose {
        Some(String::from_str(">> ").concat(name))
    } else {
        None
    }
}

/// The usage line.
pub open spec fn usage_text(program: Seq<char>) -> Seq<char> {
    "Usage: "@ + program + " [-h] [-qv] [-C DIR] command [args...]"@
}

/// Renders the usage line for the given program name.
pub fn usage_line(program_name: &str) -> (line: String)
    ensures
        line@ == usage_text(program_name@),
{
    String::from_str("Usage: ").concat(program_name).concat(
        " [-h] [-qv] [-C DIR] command [args...]",
    )
}

/// The full help text, one line per element: the usage line, one line per
/// flag, and a blank separator before the help flag's own line.
pub fn help_lines(program_name: &str) -> (lines: Vec<String>)
    ensures
        lines@.len() == 6,
        lines@[0]@ == usage_text(program_name@),
        lines@[1]@ == "  -C DIR  switch to DIR before starting"@,
        lines@[2]@ == "  -q      suppress command error output"@,
        lines@[3]@ == "  -v      print directory names as they are processed"@,
        lines@[4]@ == ""@,
        lines@[5]@ == "  -h      display this help"@,
{
    let mut lines: Vec<String> = Vec::new();
    lines.push(usage_line(program_name));
    lines.push(String::from_str("  -C DIR  switch to DIR before starting"));
    lines.push(String::from_str("  -q      suppress command error output"));
    lines.push(String::from_str("  -v      print directory names as they are processed"));
    lines.push(String::from_str(""));
    lines.push(String::from_str("  -h      display this help"));
    lines
}

} // verus!
