use reachability::outcome::{outcome_of_event, ProbeEvent, ProbeStatus, UnreachableReason};
use reachability::prober::{assemble_report, ProbeReport};
use reachability::render::{render_outcome, render_report, render_target, status_label, u64_to_dec};
use reachability::target::Target;

fn target(host: &str, port: u16) -> Target {
    Target::new(String::from(host), port)
}

#[test]
fn renders_zero() {
    assert_eq!(u64_to_dec(0), "0");
}

#[test]
fn renders_one_digit() {
    assert_eq!(u64_to_dec(7), "7");
}

#[test]
fn renders_round_numbers_with_their_zeroes() {
    assert_eq!(u64_to_dec(1000), "1000");
}

#[test]
fn renders_the_highest_port() {
    assert_eq!(u64_to_dec(65535), "65535");
}

#[test]
fn renders_the_largest_value() {
    assert_eq!(u64_to_dec(u64::MAX), "18446744073709551615");
}

#[test]
fn renders_a_target_as_host_colon_port() {
    assert_eq!(render_target(&target("example.com", 80)), "example.com:80");
}

#[test]
fn labels_every_status() {
    assert_eq!(status_label(ProbeStatus::Reachable), "reachable");
    assert_eq!(
        status_label(ProbeStatus::Unreachable(UnreachableReason::Refused)),
        "unreachable:refused"
    );
    assert_eq!(
        status_label(ProbeStatus::Unreachable(UnreachableReason::NoRoute)),
        "unreachable:no-route"
    );
    assert_eq!(
        status_label(ProbeStatus::Unreachable(UnreachableReason::ResolutionFailed)),
        "unreachable:resolution-failed"
    );
    assert_eq!(
        status_label(ProbeStatus::Unreachable(UnreachableReason::Other)),
        "unreachable:other"
    );
    assert_eq!(status_label(ProbeStatus::TimedOut), "timed-out");
}

#[test]
fn renders_a_reachable_outcome_line() {
    let o = outcome_of_event(
        target("example.com", 80),
        ProbeEvent::Connected { elapsed_ms: 5 },
        100,
    );
    assert_eq!(render_outcome(&o), "example.com:80 reachable 5");
}

#[test]
fn renders_a_timed_out_outcome_line() {
    let o = outcome_of_event(target("slow.example", 443), ProbeEvent::TimedOut, 250);
    assert_eq!(render_outcome(&o), "slow.example:443 timed-out 250");
}

#[test]
fn a_rendered_target_parses_back_to_itself() {
    let t = target("example.com", 8080);
    let parsed = reachability::parse::parse_target(&render_target(&t)).unwrap();
    assert_eq!(parsed, t);
}

#[test]
fn a_rendered_target_with_colons_in_the_host_parses_back_to_itself() {
    let t = target("fe80::1", 443);
    let parsed = reachability::parse::parse_target(&render_target(&t)).unwrap();
    assert_eq!(parsed, t);
}

#[test]
fn renders_an_empty_report_as_empty_text() {
    let report = ProbeReport { outcomes: Vec::new() };
    assert_eq!(render_report(&report), "");
}

#[test]
fn renders_one_line_per_outcome_each_ended_by_a_newline() {
    let targets = vec![target("a.example", 1), target("b.example", 2)];
    let events = vec![
        ProbeEvent::Connected { elapsed_ms: 3 },
        ProbeEvent::Failed { reason: UnreachableReason::Refused, elapsed_ms: 4 },
    ];
    let report = assemble_report(&targets, &events, 100);
    assert_eq!(
        render_report(&report),
        "a.example:1 reachable 3\nb.example:2 unreachable:refused 4\n"
    );
}
