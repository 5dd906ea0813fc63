//! Rendering of reports in a stable, parseable textual form: one line
//! per target, `host:port status elapsed_ms`.

use vstd::prelude::*;
use crate::outcome::{ProbeOutcome, ProbeStatus, UnreachableReason};
use crate::parse::{
    all_digits,
    dec_val,
    digit_val,
    is_digit,
    lemma_colon_at,
    parse_target_spec,
    TargetParseError,
};
use crate::prober::ProbeReport;
use crate::target::{target_wf, Target, TargetView};

verus! {

/// The character of a decimal digit value.
pub open spec fn digit_char(d: int) -> char {
    if d == 0 {
        '0'
    } else if d == 1 {
        '1'
    } else if d == 2 {
        '2'
    } else if d == 3 {
        '3'
    } else if d == 4 {
        '4'
    } else if d == 5 {
        '5'
    } else if d == 6 {
        '6'
    } else if d == 7 {
        '7'
    } else if d == 8 {
        '8'
    } else {
        '9'
    }
}

/// The decimal rendering of a non-negative number, most significant
/// digit first, without leading zeroes (zero itself renders as one
/// digit).
pub open spec fn dec_digits(n: int) -> Seq<char>
    decreases n,
{
    if n < 10 {
        seq![digit_char(n)]
    } else {
        dec_digits(n / 10).push(digit_char(n % 10))
    }
}

fn digit_str(d: u64) -> (r: &'static str)
    requires
        d < 10,
    ensures
        r@ == seq![digit_char(d as int)],
{
    if d == 0 {
        proof {
            reveal_strlit("0");
            assert("0"@ =~= seq![digit_char(0)]);
        }
        "0"
    } else if d == 1 {
        proof {
            reveal_strlit("1");
            assert("1"@ =~= seq![digit_char(1)]);
        }
        "1"
    } else if d == 2 {
        proof {
            reveal_strlit("2");
            assert("2"@ =~= seq![digit_char(2)]);
        }
        "2"
    } else if d == 3 {
        proof {
            reveal_strlit("3");
            assert("3"@ =~= seq![digit_char(3)]);
        }
        "3"
    } else if d == 4 {
        proof {
            reveal_strlit("4");
            assert("4"@ =~= seq![digit_char(4)]);
        }
        "4"
    } else if d == 5 {
        proof {
            reveal_strlit("5");
            assert("5"@ =~= seq![digit_char(5)]);
        }
        "5"
    } else if d == 6 {
        proof {
            reveal_strlit("6");
            assert("6"@ =~= seq![digit_char(6)]);
        }
        "6"
    } else if d == 7 {
        proof {
            reveal_strlit("7");
            assert("7"@ =~= seq![digit_char(7)]);
        }
        "7"
    } else if d == 8 {
        proof {
            reveal_strlit("8");
            assert("8"@ =~= seq![digit_char(8)]);
        }
        "8"
    } else {
        proof {
            reveal_strlit("9");
            assert("9"@ =~= seq![digit_char(9)]);
        }
        "9"
    }
}

/// Renders a number in decimal, most significant digit first.
pub fn u64_to_dec(n: u64) -> (s: String)
    ensures
        s@ == dec_digits(n as int),
    decreases n,
{
    if n < 10 {
        String::from_str(digit_str(n))
    } else {
        proof {
            assert(n / 10 < n) by (nonlinear_arith)
                requires
                    n >= 10,
            ;
        }
        let mut s = u64_to_dec(n / 10);
        s.append(digit_str(n % 10));
        proof {
            assert(dec_digits((n / 10) as int) + seq![digit_char((n % 10) as int)] =~= dec_digits(
                (n / 10) as int,
            ).push(digit_char((n % 10) as int)));
        }
        s
    }
}

/// Decimal renderings are made of digits alone, and parsing one back
/// recovers the number.
pub proof fn lemma_dec_digits_inverse(n: int)
    requires
        n >= 0,
    ensures
        dec_digits(n).len() >= 1,
        all_digits(dec_digits(n)),
        dec_val(dec_digits(n)) == n,
    decreases n,
{
    if n < 10 {
        assert(is_digit(digit_char(n)) && digit_val(digit_char(n)) == n);
        assert(dec_digits(n).drop_last() =~= Seq::<char>::empty());
        assert(dec_digits(n).last() == digit_char(n));
        assert(dec_val(dec_digits(n)) == dec_val(Seq::<char>::empty()) * 10 + digit_val(
            digit_char(n),
        ));
    } else {
        lemma_dec_digits_inverse(n / 10);
        let d = n % 10;
        assert(is_digit(digit_char(d)) && digit_val(digit_char(d)) == d);
        assert(dec_digits(n).drop_last() =~= dec_digits(n / 10));
        assert(dec_digits(n).last() == digit_char(d));
        assert(dec_val(dec_digits(n)) == dec_val(dec_digits(n / 10)) * 10 + digit_val(
            digit_char(d),
        ));
        assert(n == (n / 10) * 10 + n % 10) by (nonlinear_arith);
        assert(forall|i: int|
            0 <= i < dec_digits(n).len() ==> is_digit(#[trigger] dec_digits(n)[i]));
    }
}

/// The report's target text is parseable: rendering a valid target
/// with a non-empty host as `host:port` and parsing the text back
/// yields the target itself, even when the host itself contains
/// colons, because parsing splits at the last colon and the port
/// digits contain none.
pub proof fn lemma_target_text_parses_back(t: TargetView)
    requires
        target_wf(t),
        t.host.len() > 0,
    ensures
        parse_target_spec(target_text(t)) == Ok::<TargetView, TargetParseError>(t),
{
    reveal_strlit(":");
    let s = target_text(t);
    let hl = t.host.len() as int;
    let digits = dec_digits(t.port as int);
    lemma_dec_digits_inverse(t.port as int);
    assert(s.len() == hl + 1 + digits.len());
    assert(s[hl] == ':');
    assert forall|i: int| hl < i < s.len() implies s[i] != ':' by {
        assert(s[i] == digits[i - hl - 1]);
        assert(is_digit(digits[i - hl - 1]));
    }
    lemma_colon_at(s, hl);
    assert(s.subrange(0, hl) =~= t.host);
    assert(s.subrange(hl + 1, s.len() as int) =~= digits);
    assert(t == TargetView { host: t.host, port: t.port });
}

/// The textual label of a probe status.
pub open spec fn status_label_view(s: ProbeStatus) -> Seq<char> {
    match s {
        ProbeStatus::Reachable => "reachable"@,
        ProbeStatus::Unreachable(UnreachableReason::Refused) => "unreachable:refused"@,
        ProbeStatus::Unreachable(UnreachableReason::NoRoute) => "unreachable:no-route"@,
        ProbeStatus::Unreachable(UnreachableReason::ResolutionFailed) => "unreachable:resolution-failed"@,
        ProbeStatus::Unreachable(UnreachableReason::Other) => "unreachable:other"@,
        ProbeStatus::TimedOut => "timed-out"@,
    }
}

/// The textual label of a probe status.
pub fn status_label(s: ProbeStatus) -> (r: &'static str)
    ensures
        r@ == status_label_view(s),
{
    match s {
        ProbeStatus::Reachable => "reachable",
        ProbeStatus::Unreachable(UnreachableReason::Refused) => "unreachable:refused",
        ProbeStatus::Unreachable(UnreachableReason::NoRoute) => "unreachable:no-route",
        ProbeStatus::Unreachable(UnreachableReason::ResolutionFailed) => "unreachable:resolution-failed",
        ProbeStatus::Unreachable(UnreachableReason::Other) => "unreachable:other",
        ProbeStatus::TimedOut => "timed-out",
    }
}

/// The `host:port` text of a target.
pub open spec fn target_text(t: TargetView) -> Seq<char> {
    t.host + ":"@ + dec_digits(t.port as int)
}

/// Renders a target as `host:port`.
pub fn render_target(t: &Target) -> (s: String)
    ensures
        s@ == target_text(t@),
{
    let mut s = t.host().clone();
    s.append(":");
    let port = u64_to_dec(t.port() as u64);
    s.append(port.as_str());
    s
}

/// The report line of one outcome: `host:port status elapsed_ms`.
pub open spec fn outcome_line(o: ProbeOutcome) -> Seq<char> {
    target_text(o.target@) + " "@ + status_label_view(o.status) + " "@ + dec_digits(
        o.elapsed_ms as int,
    )
}

/// Renders one outcome as its report line, `host:port status
/// elapsed_ms`.
pub fn render_outcome(o: &ProbeOutcome) -> (s: String)
    ensures
        s@ == outcome_line(*o),
{
    let mut s = render_target(&o.target);
    s.append(" ");
    s.append(status_label(o.status));
    s.append(" ");
    let elapsed = u64_to_dec(o.elapsed_ms);
    s.append(elapsed.as_str());
    s
}

/// The full text of a report: the line of each outcome in report
/// order, each followed by a newline.
pub open spec fn report_text(outcomes: Seq<ProbeOutcome>) -> Seq<char>
    decreases outcomes.len(),
{
    if outcomes.len() == 0 {
        Seq::empty()
    } else {
        report_text(outcomes.drop_last()) + outcome_line(outcomes.last()) + "\n"@
    }
}

/// Renders a whole report, one line per outcome in report order, each
/// line ended by a newline.
#[verifier::loop_isolation(false)]
pub fn render_report(rep: &ProbeReport) -> (s: String)
    ensures
        s@ == report_text(rep@),
{
    let mut s = String::new();
    let n = rep.outcomes.len();
    let mut i: usize = 0;
    while i < n
        invariant
            i <= n,
            s@ == report_text(rep@.take(i as int)),
        decreases n - i,
    {
        proof {
            assert(rep@.take(i + 1).drop_last() =~= rep@.take(i as int));
            assert(rep@.take(i + 1).last() == rep@[i as int]);
        }
        let line = render_outcome(&rep.outcomes[i]);
        s.append(line.as_str());
        s.append("\n");
        i = i + 1;
    }
    proof {
        assert(rep@.take(n as int) =~= rep@);
    }
    s
}

} // verus!
