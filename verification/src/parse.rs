//! Parsing of textual `host:port` target descriptions.
//!
//! The text is split at its last colon, so host forms that themselves
//! contain colons keep them on the host side. A malformed description
//! fails only its own parse; the descriptions around it are unaffected.

use vstd::prelude::*;
use crate::target::{target_wf, Target, TargetView};

verus! {

/// Why one target description failed to parse. A parse failure is
/// local to its description: it never aborts the parsing of the other
/// descriptions of a round.
#[derive(Clone, Copy, Debug, PartialEq, Eq, Structural)]
pub enum TargetParseError {
    /// No colon, or nothing after the last colon.
    MissingPort,
    /// Nothing before the last colon.
    EmptyHost,
    /// The port text holds a character that is not a decimal digit.
    NonNumericPort,
    /// The port value is outside 1 through 65535.
    PortOutOfRange,
}

/// The textual description of a parse failure.
pub open spec fn parse_error_text(e: TargetParseError) -> Seq<char> {
    match e {
        TargetParseError::MissingPort => "missing port"@,
        TargetParseError::EmptyHost => "empty host"@,
        TargetParseError::NonNumericPort => "non-numeric port"@,
        TargetParseError::PortOutOfRange => "port out of range"@,
    }
}

impl TargetParseError {
    /// Describes this parse failure in words.
    pub fn describe(&self) -> (r: &'static str)
        ensures
            r@ == parse_error_text(*self),
    {
        match self {
            TargetParseError::MissingPort => "missing port",
            TargetParseError::EmptyHost => "empty host",
            TargetParseError::NonNumericPort => "non-numeric port",
            TargetParseError::PortOutOfRange => "port out of range",
        }
    }
}

/// Whether a character is a decimal digit.
pub open spec fn is_digit(c: char) -> bool {
    48 <= c as int <= 57
}

/// The numeric value of a decimal digit character.
pub open spec fn digit_val(c: char) -> int {
    c as int - 48
}

/// Whether every character of the sequence is a decimal digit.
pub open spec fn all_digits(s: Seq<char>) -> bool {
    forall|i: int| 0 <= i < s.len() ==> is_digit(#[trigger] s[i])
}

/// The value of a sequence of decimal digits, most significant first.
/// An empty sequence has value zero.
pub open spec fn dec_val(s: Seq<char>) -> int
    decreases s.len(),
{
    if s.len() == 0 {
        0
    } else {
        dec_val(s.drop_last()) * 10 + digit_val(s.last())
    }
}

/// Parses a decimal number, most significant digit first. Returns its
/// value exactly when the text is non-empty, holds decimal digits
/// alone, and the value fits the result type; rejects anything else.
#[verifier::loop_isolation(false)]
pub fn parse_decimal_u64(input: &str) -> (r: Option<u64>)
    ensures
        r is Some <==> input@.len() > 0 && all_digits(input@) && dec_val(input@) <= u64::MAX,
        r matches Some(v) ==> v == dec_val(input@),
{
    let n = input.unicode_len();
    if n == 0 {
        return None;
    }
    let mut acc: u64 = 0;
    let mut over: bool = false;
    let mut i: usize = 0;
    while i < n
        invariant
            n == input@.len(),
            i <= n,
            all_digits(input@.subrange(0, i as int)),
            !over ==> acc == dec_val(input@.subrange(0, i as int)),
            over ==> dec_val(input@.subrange(0, i as int)) > u64::MAX,
        decreases n - i,
    {
        let c = input.get_char(i);
        let v = c as u32;
        if v < 48 || v > 57 {
            proof {
                assert(!is_digit(input@[i as int]));
                assert(!all_digits(input@));
            }
            return None;
        }
        let d = (v - 48) as u64;
        proof {
            let p0 = input@.subrange(0, i as int);
            let p1 = input@.subrange(0, i + 1);
            assert(p1.drop_last() =~= p0);
            assert(p1.last() == input@[i as int]);
            assert(dec_val(p1) == dec_val(p0) * 10 + digit_val(input@[i as int]));
        }
        if !over {
            if acc <= (u64::MAX - d) / 10 {
                proof {
                    assert(acc * 10 + d <= u64::MAX) by (nonlinear_arith)
                        requires
                            acc <= (u64::MAX - d) / 10,
                            d <= 9,
                    ;
                }
                acc = acc * 10 + d;
            } else {
                proof {
                    assert(acc * 10 + d > u64::MAX) by (nonlinear_arith)
                        requires
                            acc > (u64::MAX - d) / 10,
                            d <= 9,
                    ;
                }
                over = true;
            }
        }
        i = i + 1;
    }
    proof {
        assert(input@.subrange(0, n as int) =~= input@);
    }
    if over {
        None
    } else {
        Some(acc)
    }
}

/// The index of the last colon of the sequence, or -1 when it has
/// none.
pub open spec fn last_colon_idx(s: Seq<char>) -> int
    decreases s.len(),
{
    if s.len() == 0 {
        -1
    } else if s.last() == ':' {
        s.len() - 1
    } else {
        last_colon_idx(s.drop_last())
    }
}

proof fn lemma_no_colon(s: Seq<char>)
    requires
        forall|i: int| 0 <= i < s.len() ==> s[i] != ':',
    ensures
        last_colon_idx(s) == -1,
    decreases s.len(),
{
    if s.len() > 0 {
        lemma_no_colon(s.drop_last());
    }
}

pub(crate) proof fn lemma_colon_at(s: Seq<char>, ci: int)
    requires
        0 <= ci < s.len(),
        s[ci] == ':',
        forall|i: int| ci < i < s.len() ==> s[i] != ':',
    ensures
        last_colon_idx(s) == ci,
    decreases s.len(),
{
    if ci < s.len() - 1 {
        lemma_colon_at(s.drop_last(), ci);
    }
}

/// The parse of one target description: split at the last colon, the
/// text before it the host, the text after it the port in decimal.
/// With no colon or an empty port text the port is missing; an empty
/// host is rejected next; then a non-digit in the port text; then a
/// port value outside 1 through 65535.
pub open spec fn parse_target_spec(s: Seq<char>) -> Result<TargetView, TargetParseError> {
    let ci = last_colon_idx(s);
    if ci < 0 {
        Err(TargetParseError::MissingPort)
    } else {
        let host = s.subrange(0, ci);
        let port = s.subrange(ci + 1, s.len() as int);
        if port.len() == 0 {
            Err(TargetParseError::MissingPort)
        } else if host.len() == 0 {
            Err(TargetParseError::EmptyHost)
        } else if !all_digits(port) {
            Err(TargetParseError::NonNumericPort)
        } else if dec_val(port) < 1 || dec_val(port) > 65535 {
            Err(TargetParseError::PortOutOfRange)
        } else {
            Ok(TargetView { host, port: dec_val(port) as u16 })
        }
    }
}

/// Whether an executable parse result carries exactly the value that
/// the parse specification gives.
pub open spec fn parse_result_matches(
    r: Result<Target, TargetParseError>,
    s: Result<TargetView, TargetParseError>,
) -> bool {
    match r {
        Ok(t) => s == Ok::<TargetView, TargetParseError>(t@),
        Err(e) => s == Err::<TargetView, TargetParseError>(e),
    }
}

/// Parses one `host:port` description, splitting at the last colon.
/// Returns the parsed target, or the error that
/// [`parse_target_spec`] assigns to the description. Every target
/// returned satisfies the target invariant.
#[verifier::loop_isolation(false)]
pub fn parse_target(input: &str) -> (r: Result<Target, TargetParseError>)
    ensures
        parse_result_matches(r, parse_target_spec(input@)),
        r matches Ok(t) ==> target_wf(t@),
{
    let n = input.unicode_len();
    // Find the last colon.
    let mut k: usize = n;
    let mut colon: usize = 0;
    let mut found: bool = false;
    while k > 0 && !found
        invariant
            n == input@.len(),
            k <= n,
            !found ==> forall|i: int| k <= i < n ==> input@[i] != ':',
            found ==> k < n && input@[k as int] == ':' && colon == k && (forall|i: int|
                k < i < n ==> input@[i] != ':'),
        decreases k + (if found { 0int } else { 1int }),
    {
        let c = input.get_char(k - 1);
        if c == ':' {
            found = true;
            colon = k - 1;
        }
        k = k - 1;
    }
    if !found {
        proof {
            lemma_no_colon(input@);
        }
        return Err(TargetParseError::MissingPort);
    }
    proof {
        lemma_colon_at(input@, colon as int);
    }
    let ghost port_seq = input@.subrange(colon + 1, n as int);
    if colon + 1 == n {
        return Err(TargetParseError::MissingPort);
    }
    if colon == 0 {
        return Err(TargetParseError::EmptyHost);
    }
    // Read the port digits, most significant first, saturating once the
    // value can no longer be a valid port.
    let mut acc: u32 = 0;
    let mut over: bool = false;
    let mut i: usize = colon + 1;
    while i < n
        invariant
            n == input@.len(),
            colon < i <= n,
            port_seq == input@.subrange(colon + 1, n as int),
            all_digits(input@.subrange(colon + 1, i as int)),
            !over ==> acc <= 65535 && acc == dec_val(input@.subrange(colon + 1, i as int)),
            over ==> dec_val(input@.subrange(colon + 1, i as int)) > 65535,
        decreases n - i,
    {
        let c = input.get_char(i);
        let v = c as u32;
        if v < 48 || v > 57 {
            proof {
                assert(port_seq[i - colon - 1] == input@[i as int]);
                assert(!is_digit(port_seq[i - colon - 1]));
                assert(port_seq == input@.subrange(
                    last_colon_idx(input@) + 1,
                    input@.len() as int,
                ));
                assert(!all_digits(port_seq));
            }
            return Err(TargetParseError::NonNumericPort);
        }
        let d = v - 48;
        proof {
            let p0 = input@.subrange(colon + 1, i as int);
            let p1 = input@.subrange(colon + 1, i + 1);
            assert(p1.drop_last() =~= p0);
            assert(p1.last() == input@[i as int]);
            assert(dec_val(p1) == dec_val(p0) * 10 + digit_val(input@[i as int]));
        }
        if !over {
            let widened = acc * 10 + d;
            if widened > 65535 {
                over = true;
            } else {
                acc = widened;
            }
        }
        i = i + 1;
    }
    if over || acc == 0 {
        return Err(TargetParseError::PortOutOfRange);
    }
    let host_str = input.substring_char(0, colon);
    let host = String::from_str(host_str);
    let t = Target::new(host, acc as u16);
    assert(t@ =~= parse_target_spec(input@)->Ok_0) by {
        assert(t@.host == input@.subrange(0, colon as int));
    }
    Ok(t)
}

/// Parses every description of a list, each independently: the result
/// at each position is the parse of the description at the same
/// position, so a malformed description fails alone and the others
/// proceed.
pub fn parse_targets(inputs: &Vec<String>) -> (rs: Vec<Result<Target, TargetParseError>>)
    ensures
        rs@.len() == inputs@.len(),
        forall|i: int|
            0 <= i < inputs@.len() ==> parse_result_matches(
                #[trigger] rs@[i],
                parse_target_spec(inputs@[i]@),
            ),
        forall|i: int|
            0 <= i < inputs@.len() ==> ((#[trigger] rs@[i]) matches Ok(t) ==> target_wf(t@)),
{
    let mut rs: Vec<Result<Target, TargetParseError>> = Vec::new();
    let n = inputs.len();
    let mut i: usize = 0;
    while i < n
        invariant
            n == inputs@.len(),
            i <= n,
            rs@.len() == i,
            forall|j: int|
                0 <= j < i ==> parse_result_matches(
                    #[trigger] rs@[j],
                    parse_target_spec(inputs@[j]@),
                ),
            forall|j: int| 0 <= j < i ==> ((#[trigger] rs@[j]) matches Ok(t) ==> target_wf(t@)),
        decreases n - i,
    {
        let r = parse_target(inputs[i].as_str());
        rs.push(r);
        i = i + 1;
    }
    rs
}

/// The targets of the successful parses of a list, in order.
pub open spec fn ok_views(rs: Seq<Result<Target, TargetParseError>>) -> Seq<TargetView>
    decreases rs.len(),
{
    if rs.len() == 0 {
        Seq::empty()
    } else {
        let rest = ok_views(rs.drop_last());
        match rs.last() {
            Ok(t) => rest.push(t@),
            Err(_) => rest,
        }
    }
}

/// The failed parses of a list, each with the position it failed at,
/// in order.
pub open spec fn err_entries(rs: Seq<Result<Target, TargetParseError>>) -> Seq<
    (int, TargetParseError),
>
    decreases rs.len(),
{
    if rs.len() == 0 {
        Seq::empty()
    } else {
        let rest = err_entries(rs.drop_last());
        match rs.last() {
            Ok(_) => rest,
            Err(e) => rest.push((rs.len() - 1, e)),
        }
    }
}

/// Separates parse results into the targets to probe and the failures
/// to report: the targets are those of the successful parses, in
/// order; each failure keeps the position it occurred at. A malformed
/// description is thereby omitted from the probed set while the
/// descriptions around it proceed.
#[verifier::loop_isolation(false)]
pub fn partition_parsed(results: &Vec<Result<Target, TargetParseError>>) -> (pair: (
    Vec<Target>,
    Vec<(usize, TargetParseError)>,
))
    requires
        forall|i: int|
            0 <= i < results@.len() ==> ((#[trigger] results@[i]) matches Ok(t) ==> target_wf(t@)),
    ensures
        pair.0@.len() == ok_views(results@).len(),
        forall|i: int|
            0 <= i < pair.0@.len() ==> (#[trigger] pair.0@[i])@ == ok_views(results@)[i],
        forall|i: int| 0 <= i < pair.0@.len() ==> target_wf((#[trigger] pair.0@[i])@),
        pair.1@.len() == err_entries(results@).len(),
        forall|i: int|
            0 <= i < pair.1@.len() ==> ((#[trigger] pair.1@[i]).0 as int, pair.1@[i].1)
                == err_entries(results@)[i],
{
    let mut targets: Vec<Target> = Vec::new();
    let mut failures: Vec<(usize, TargetParseError)> = Vec::new();
    let n = results.len();
    let mut i: usize = 0;
    while i < n
        invariant
            i <= n,
            targets@.len() == ok_views(results@.take(i as int)).len(),
            forall|k: int|
                0 <= k < targets@.len() ==> (#[trigger] targets@[k])@ == ok_views(
                    results@.take(i as int),
                )[k],
            forall|k: int| 0 <= k < targets@.len() ==> target_wf((#[trigger] targets@[k])@),
            failures@.len() == err_entries(results@.take(i as int)).len(),
            forall|k: int|
                0 <= k < failures@.len() ==> ((#[trigger] failures@[k]).0 as int, failures@[k].1)
                    == err_entries(results@.take(i as int))[k],
        decreases n - i,
    {
        proof {
            assert(results@.take(i + 1).drop_last() =~= results@.take(i as int));
            assert(results@.take(i + 1).last() == results@[i as int]);
        }
        let r = &results[i];
        match r {
            Ok(t) => {
                targets.push(t.duplicate());
            },
            Err(e) => {
                failures.push((i, *e));
            },
        }
        i = i + 1;
    }
    proof {
        assert(results@.take(n as int) =~= results@);
    }
    (targets, failures)
}

} // verus!
