use mail_pinger::address::{parse_number, parse_port};
use mail_pinger::probe::{FailureKind, ProbeOutcome};
use mail_pinger::report::{decimal_text, failure_line, summary_line};
use mail_pinger::scheduler::RunResult;

#[test]
fn decimal_text_of_numbers() {
    assert_eq!(decimal_text(0), "0");
    assert_eq!(decimal_text(7), "7");
    assert_eq!(decimal_text(9), "9");
    assert_eq!(decimal_text(10), "10");
    assert_eq!(decimal_text(993), "993");
    assert_eq!(decimal_text(1000), "1000");
    assert_eq!(decimal_text(65535), "65535");
    assert_eq!(decimal_text(usize::MAX), usize::MAX.to_string());
}

#[test]
fn decimal_text_reads_back() {
    let mut n: usize = 0;
    while n < 70000 {
        let text = decimal_text(n);
        assert_eq!(text, n.to_string());
        assert_eq!(parse_number(&text, u64::MAX), Some(n as u64));
        assert_eq!(parse_port(&text).ok(), if n <= 65535 { Some(n as u16) } else { None });
        n += 13;
    }
}

#[test]
fn summary_line_of_a_run() {
    assert_eq!(
        summary_line(RunResult { attempted: 2, succeeded: 1 }),
        "succesfully processed 1 entries out of 2"
    );
    assert_eq!(
        summary_line(RunResult { attempted: 0, succeeded: 0 }),
        "succesfully processed 0 entries out of 0"
    );
    assert_eq!(
        summary_line(RunResult { attempted: 120, succeeded: 97 }),
        "succesfully processed 97 entries out of 120"
    );
}

#[test]
fn failure_line_names_user_server_and_reason() {
    let outcome = ProbeOutcome::Failure {
        kind: FailureKind::Authentication,
        reason: "bad credentials".to_string(),
        server: "mail.example.com:993".to_string(),
        user: "alice".to_string(),
    };
    assert_eq!(
        failure_line(&outcome),
        Some("alice@mail.example.com:993: bad credentials".to_string())
    );
    assert_eq!(failure_line(&ProbeOutcome::Success), None);
}
