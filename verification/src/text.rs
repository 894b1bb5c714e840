//! The texts that the scheduler writes: the arguments it starts a runner
//! with, and the line that shows how far a run has come.

use vstd::prelude::*;
use crate::dispatch::Counts;

verus! {

/// The character of the decimal digit `d`.
pub open spec fn digit(d: int) -> char {
    if d == 0 {
        '0'
    } else if d == 1 {
        '1'
    } else if d == 2 {
        '2'
    } else if d == 3 {
        '3'
    } else if d == 4 {
        '4'
    } else if d == 5 {
        '5'
    } else if d == 6 {
        '6'
    } else if d == 7 {
        '7'
    } else if d == 8 {
        '8'
    } else {
        '9'
    }
}

/// The decimal digits of `n`, without leading zeros.
pub open spec fn decimal(n: nat) -> Seq<char>
    decreases n,
{
    if n < 10 {
        seq![digit(n as int)]
    } else {
        decimal(n / 10).push(digit((n % 10) as int))
    }
}

/// The decimal digits of `n`, after a minus sign if `n` is negative.
pub open spec fn signed_decimal(n: int) -> Seq<char> {
    if n < 0 {
        seq!['-'] + decimal((-n) as nat)
    } else {
        decimal(n as nat)
    }
}

/// `n` spaces.
pub open spec fn spaces(n: nat) -> Seq<char> {
    Seq::new(n, |i: int| ' ')
}

/// The decimal digits of `n` after as many spaces as fill `width`
/// characters.
pub open spec fn padded(n: nat, width: nat) -> Seq<char> {
    let digits = decimal(n);
    if digits.len() >= width {
        digits
    } else {
        spaces((width - digits.len()) as nat) + digits
    }
}

fn digit_text(d: u64) -> (s: &'static str)
    requires
        d < 10,
    ensures
        s@ == seq![digit(d as int)],
{
    proof {
        reveal_strlit("0");
        reveal_strlit("1");
        reveal_strlit("2");
        reveal_strlit("3");
        reveal_strlit("4");
        reveal_strlit("5");
        reveal_strlit("6");
        reveal_strlit("7");
        reveal_strlit("8");
        reveal_strlit("9");
    }
    let s = if d == 0 {
        "0"
    } else if d == 1 {
        "1"
    } else if d == 2 {
        "2"
    } else if d == 3 {
        "3"
    } else if d == 4 {
        "4"
    } else if d == 5 {
        "5"
    } else if d == 6 {
        "6"
    } else if d == 7 {
        "7"
    } else if d == 8 {
        "8"
    } else {
        "9"
    };
    assert(s@ =~= seq![digit(d as int)]);
    s
}

/// Writes the decimal digits of `n` behind `s`.
pub fn push_decimal(s: &mut String, n: u64)
    ensures
        final(s)@ == old(s)@ + decimal(n as nat),
    decreases n,
{
    if n >= 10 {
        push_decimal(s, n / 10);
    }
    s.append(digit_text(n % 10));
    proof {
        if n >= 10 {
            assert(final(s)@ =~= old(s)@ + decimal(n as nat));
        } else {
            assert(final(s)@ =~= old(s)@ + decimal(n as nat));
        }
    }
}

/// Writes the decimal digits of `n` behind `s`, after a minus sign if `n`
/// is negative.
pub fn push_signed_decimal(s: &mut String, n: i64)
    ensures
        final(s)@ == old(s)@ + signed_decimal(n as int),
{
    if n < 0 {
        proof {
            reveal_strlit("-");
        }
        s.append("-");
        let magnitude: u64 = if n == i64::MIN {
            9223372036854775808u64
        } else {
            (-n) as u64
        };
        push_decimal(s, magnitude);
        assert(final(s)@ =~= old(s)@ + signed_decimal(n as int));
    } else {
        push_decimal(s, n as u64);
    }
}

/// A number has one digit below 10, two below 100, and more from there.
pub proof fn lemma_decimal_len(n: nat)
    ensures
        n < 10 ==> decimal(n).len() == 1,
        10 <= n < 100 ==> decimal(n).len() == 2,
        100 <= n ==> decimal(n).len() >= 3,
    decreases n,
{
    if n >= 10 {
        lemma_decimal_len(n / 10);
    }
}

/// Writes the decimal digits of `n` behind `s`, after as many spaces as
/// fill three characters.
pub fn push_padded(s: &mut String, n: u64)
    ensures
        final(s)@ == old(s)@ + padded(n as nat, 3),
{
    proof {
        lemma_decimal_len(n as nat);
        reveal_strlit(" ");
        reveal_strlit("  ");
    }
    if n < 10 {
        s.append("  ");
        assert("  "@ =~= spaces(2));
    } else if n < 100 {
        s.append(" ");
        assert(" "@ =~= spaces(1));
    }
    let ghost before = s@;
    push_decimal(s, n);
    assert(final(s)@ =~= old(s)@ + padded(n as nat, 3));
}

/// The arguments with which a runner is started for one job: the word
/// that selects running one job, then the core to pin to if there is
/// one, then the niceness if there is one.
pub open spec fn runner_arg_texts(core_id: Option<usize>, nice: Option<i32>) -> Seq<Seq<char>> {
    seq!["run"@] + match core_id {
        Some(id) => seq!["--pin-core-id"@, decimal(id as nat)],
        None => Seq::empty(),
    } + match nice {
        Some(n) => seq!["--nice="@ + signed_decimal(n as int)],
        None => Seq::empty(),
    }
}

/// The texts that strings hold.
pub open spec fn texts(strings: Seq<String>) -> Seq<Seq<char>> {
    strings.map_values(|s: String| s@)
}

/// The arguments with which a runner is started for one job.
///
/// A niceness is written behind an equals sign, so that a negative one is
/// not read as an option.
pub fn runner_args(core_id: Option<usize>, nice: Option<i32>) -> (args: Vec<String>)
    ensures
        texts(args@) == runner_arg_texts(core_id, nice),
{
    let mut args: Vec<String> = Vec::new();
    let mut mode = String::new();
    mode.append("run");
    assert(mode@ =~= "run"@);
    args.push(mode);
    if let Some(id) = core_id {
        let mut flag = String::new();
        flag.append("--pin-core-id");
        assert(flag@ =~= "--pin-core-id"@);
        let mut value = String::new();
        push_decimal(&mut value, id as u64);
        assert(value@ =~= decimal(id as nat));
        args.push(flag);
        args.push(value);
    }
    if let Some(n) = nice {
        let mut flag = String::new();
        flag.append("--nice=");
        push_signed_decimal(&mut flag, n as i64);
        assert(flag@ =~= "--nice="@ + signed_decimal(n as int));
        args.push(flag);
    }
    assert(texts(args@) =~= runner_arg_texts(core_id, nice));
    args
}

/// The line that shows how far a run of `total` jobs has come. It starts
/// with a carriage return, so that it is written over the line before.
pub open spec fn progress_text(counts: Counts, total: usize) -> Seq<char> {
    "\r Processed: "@ + padded(counts.done as nat, 3) + " / "@ + padded(total as nat, 3)
        + ". Success "@ + padded(counts.success as nat, 3) + ", Unsupported "@ + padded(
        counts.unsupported as nat,
        3,
    ) + ", Failed "@ + padded(counts.failed as nat, 3) + ", Skipped "@ + decimal(
        counts.skipped as nat,
    )
}

/// The line that shows how far a run of `total` jobs has come.
pub fn progress_line(counts: &Counts, total: usize) -> (line: String)
    ensures
        line@ == progress_text(*counts, total),
{
    let mut line = String::new();
    line.append("\r Processed: ");
    push_padded(&mut line, counts.done as u64);
    line.append(" / ");
    push_padded(&mut line, total as u64);
    line.append(". Success ");
    push_padded(&mut line, counts.success as u64);
    line.append(", Unsupported ");
    push_padded(&mut line, counts.unsupported as u64);
    line.append(", Failed ");
    push_padded(&mut line, counts.failed as u64);
    line.append(", Skipped ");
    push_decimal(&mut line, counts.skipped as u64);
    assert(line@ =~= progress_text(*counts, total));
    line
}

} // verus!
