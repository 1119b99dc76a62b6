//! What is said of a run: the summary line and the line of a failed probe.

use crate::address::{decimal_value, digit_value, is_digit, is_number_text};
use crate::probe::{ProbeOutcome, ProbeOutcomeView};
use crate::scheduler::RunResult;
use vstd::prelude::*;
use vstd::string::StringExecFns;

verus! {

/// The decimal digit that stands for a number below ten.
pub open spec fn digit_char(d: nat) -> char {
    (d + '0' as nat) as char
}

/// A number in decimal digits, without leading zeros.
pub open spec fn decimal_text_spec(n: nat) -> Seq<char>
    decreases n,
{
    if n < 10 {
        seq![digit_char(n)]
    } else {
        decimal_text_spec(n / 10).push(digit_char(n % 10))
    }
}

/// The summary of a run.
pub open spec fn summary_spec(result: RunResult) -> Seq<char> {
    "succesfully processed "@ + decimal_text_spec(result.succeeded as nat) + " entries out of "@
        + decimal_text_spec(result.attempted as nat)
}

/// The line that reports a failed probe: user, `@`, server, `: `, reason.
pub open spec fn failure_line_spec(outcome: ProbeOutcomeView) -> Option<Seq<char>> {
    match outcome {
        ProbeOutcomeView::Success => None,
        ProbeOutcomeView::Failure { reason, server, user, .. } => Some(
            user + "@"@ + server + ": "@ + reason,
        ),
    }
}

fn digit_text(d: usize) -> (text: &'static str)
    requires
        d < 10,
    ensures
        text@ == seq![digit_char(d as nat)],
{
    proof {
        reveal_strlit("0");
        reveal_strlit("1");
        reveal_strlit("2");
        reveal_strlit("3");
        reveal_strlit("4");
        reveal_strlit("5");
        reveal_strlit("6");
        reveal_strlit("7");
        reveal_strlit("8");
        reveal_strlit("9");
    }
    let text: &'static str = if d == 0 {
        "0"
    } else if d == 1 {
        "1"
    } else if d == 2 {
        "2"
    } else if d == 3 {
        "3"
    } else if d == 4 {
        "4"
    } else if d == 5 {
        "5"
    } else if d == 6 {
        "6"
    } else if d == 7 {
        "7"
    } else if d == 8 {
        "8"
    } else {
        "9"
    };
    assert(text@ =~= seq![digit_char(d as nat)]);
    text
}

fn append_decimal(out: &mut String, n: usize)
    ensures
        final(out)@ == old(out)@ + decimal_text_spec(n as nat),
    decreases n,
{
    if n >= 10 {
        append_decimal(out, n / 10);
    }
    let ghost before = out@;
    out.append(digit_text(n % 10));
    proof {
        let digit = digit_char((n % 10) as nat);
        if n >= 10 {
            assert(before + seq![digit] =~= old(out)@ + decimal_text_spec((n / 10) as nat).push(
                digit,
            ));
        }
    }
}

/// Writes a number in decimal digits.
pub fn decimal_text(n: usize) -> (text: String)
    ensures
        text@ == decimal_text_spec(n as nat),
{
    let mut text = String::new();
    append_decimal(&mut text, n);
    assert(Seq::<char>::empty() + decimal_text_spec(n as nat) =~= decimal_text_spec(n as nat));
    text
}

/// The summary line of a run: how many endpoints were probed with success,
/// out of how many.
pub fn summary_line(result: RunResult) -> (line: String)
    ensures
        line@ == summary_spec(result),
{
    let mut line = String::new();
    line.append("succesfully processed ");
    append_decimal(&mut line, result.succeeded);
    line.append(" entries out of ");
    append_decimal(&mut line, result.attempted);
    assert(line@ =~= summary_spec(result));
    line
}

/// The line that reports a failed probe; none for a success.
pub fn failure_line(outcome: &ProbeOutcome) -> (line: Option<String>)
    ensures
        match line {
            Some(text) => failure_line_spec(outcome@) == Some(text@),
            None => failure_line_spec(outcome@) is None,
        },
{
    match outcome {
        ProbeOutcome::Success => None,
        ProbeOutcome::Failure { reason, server, user, .. } => {
            let mut line = String::new();
            line.append(user.as_str());
            line.append("@");
            line.append(server.as_str());
            line.append(": ");
            line.append(reason.as_str());
            assert(line@ =~= user@ + "@"@ + server@ + ": "@ + reason@);
            Some(line)
        },
    }
}

/// What is written of a number reads back as that number.
pub proof fn lemma_decimal_text_reads_back(n: nat)
    ensures
        is_number_text(decimal_text_spec(n)),
        decimal_value(decimal_text_spec(n)) == n,
        decimal_text_spec(n).len() > 0,
        forall|i: int|
            0 <= i < decimal_text_spec(n).len() ==> is_digit(#[trigger] decimal_text_spec(n)[i]),
    decreases n,
{
    let text = decimal_text_spec(n);
    if n < 10 {
        assert(text.drop_last() =~= Seq::<char>::empty());
        assert(decimal_value(text.drop_last()) == 0);
        assert(text.last() == digit_char(n));
        assert(digit_value(digit_char(n)) == n);
    } else {
        lemma_decimal_text_reads_back(n / 10);
        let front = decimal_text_spec(n / 10);
        assert(text.drop_last() =~= front);
        assert(text.last() == digit_char(n % 10));
        assert(digit_value(digit_char(n % 10)) == n % 10);
        assert(decimal_value(text) == decimal_value(front) * 10 + n % 10);
        assert forall|i: int| 0 <= i < text.len() implies is_digit(#[trigger] text[i]) by {
            if i < front.len() {
                assert(text[i] == front[i]);
            }
        }
    }
    assert(is_digit(text[0]));
}

} // verus!
