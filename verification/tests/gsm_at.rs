use cps_station::gsm::at::{
    cs_registered, eps_registered, judge_reply, server_message, AtAction, AtEvent, AtExchange,
    AtStage, Verdict,
};

#[test]
fn reply_with_the_expected_text_accepts() {
    assert_eq!(judge_reply(b"\r\nOK\r\n", "OK"), Verdict::Accepted);
    assert_eq!(judge_reply(b"+CIPOPEN: 0,0\r\n", "+CIPOPEN: 0,0"), Verdict::Accepted);
    assert_eq!(judge_reply(b"\r\n>", ">"), Verdict::Accepted);
}

#[test]
fn reply_with_error_rejects() {
    assert_eq!(judge_reply(b"\r\nERROR\r\n", "OK"), Verdict::Rejected);
    assert_eq!(judge_reply(b"+CME ERROR: 10\r\n", "OK"), Verdict::Rejected);
}

#[test]
fn expected_text_outweighs_error() {
    assert_eq!(judge_reply(b"ERROR\r\nOK\r\n", "OK"), Verdict::Accepted);
}

#[test]
fn other_replies_decide_nothing() {
    assert_eq!(judge_reply(b"", "OK"), Verdict::Undecided);
    assert_eq!(judge_reply(b"RDY\r\n", "OK"), Verdict::Undecided);
    assert_eq!(judge_reply(b"OK\xFF", "OK"), Verdict::Undecided);
    assert_eq!(judge_reply(b"ERROR\xC0", "OK"), Verdict::Undecided);
}

#[test]
fn eps_registration_at_home_and_roaming() {
    assert!(eps_registered(b"\r\n+CEREG: 0,1\r\n\r\nOK\r\n"));
    assert!(eps_registered(b"\r\n+CEREG: 0,5\r\n\r\nOK\r\n"));
    assert!(eps_registered(b"\r\n+CEREG: 1,1\r\n\r\nOK\r\n"));
    assert!(eps_registered(b"\r\n+CEREG: 1,5\r\n\r\nOK\r\n"));
    assert!(!eps_registered(b"\r\n+CEREG: 0,2\r\n\r\nOK\r\n"));
    assert!(!eps_registered(b"\r\n+CREG: 0,1\r\n\r\nOK\r\n"));
    assert!(!eps_registered(b"\r\n+CEREG: 0,11\r\n\r\nOK\r\n"));
    assert!(!eps_registered(b"\xFF+CEREG: 0,1\r\n\r\nOK\r\n"));
}

#[test]
fn registration_needs_text_after_the_status() {
    assert!(!eps_registered(b"+CEREG: 0,1\r\n"));
    assert!(eps_registered(b"+CEREG: 0,1\r\nO"));
}

#[test]
fn cs_registration_at_home_and_roaming() {
    assert!(cs_registered(b"\r\n+CREG: 0,1\r\n\r\nOK\r\n"));
    assert!(cs_registered(b"\r\n+CREG: 0,5\r\n\r\nOK\r\n"));
    assert!(!cs_registered(b"\r\n+CREG: 1,1\r\n\r\nOK\r\n"));
    assert!(!cs_registered(b"\r\n+CEREG: 0,1\r\n\r\nOK\r\n"));
    assert!(!cs_registered(b""));
}

#[test]
fn server_messages_are_trimmed() {
    assert_eq!(server_message(b"\r\n+IPD5\r\nhello\r\n"), Some("+IPD5\r\nhello"));
    assert_eq!(server_message(b" \r\n"), None);
    assert_eq!(server_message(b""), None);
    assert_eq!(server_message(b"\xFE"), None);
}

fn asks_to_read(x: &AtExchange, ms: u64) -> bool {
    matches!(x.action(), AtAction::Read(t) if t == ms)
}

fn sent<'a>(expected: &'a str, wait_ms: u64) -> AtExchange<'a> {
    let mut x = AtExchange::new("AT\r\n", expected, wait_ms);
    x.step(AtEvent::TimedOut);
    x.step(AtEvent::Written(true));
    x.step(AtEvent::ClockStarted);
    x
}

#[test]
fn exchange_that_succeeds() {
    let mut x = AtExchange::new("AT\r\n", "OK", 1000);
    assert!(asks_to_read(&x, 50));
    x.step(AtEvent::Received(b"stale OK"));
    assert!(asks_to_read(&x, 50));
    x.step(AtEvent::ReadFailed);
    assert!(asks_to_read(&x, 50));
    x.step(AtEvent::TimedOut);
    assert!(matches!(x.action(), AtAction::Write("AT\r\n")));
    x.step(AtEvent::Written(true));
    assert!(matches!(x.action(), AtAction::StartClock));
    x.step(AtEvent::ClockStarted);
    assert!(matches!(x.action(), AtAction::ReadClock));
    x.step(AtEvent::Elapsed(3));
    assert!(matches!(x.action(), AtAction::ReadClock));
    x.step(AtEvent::Elapsed(4));
    assert!(asks_to_read(&x, 996));
    x.step(AtEvent::Received(b"AT\r\r\n"));
    assert!(matches!(x.action(), AtAction::ReadClock));
    x.step(AtEvent::Elapsed(400));
    x.step(AtEvent::Elapsed(400));
    assert!(asks_to_read(&x, 600));
    x.step(AtEvent::Received(b"OK\r\n"));
    assert!(matches!(x.action(), AtAction::Finish(true)));
    x.step(AtEvent::Received(b"ERROR"));
    assert!(x.stage == AtStage::Done(true));
}

#[test]
fn exchange_that_cannot_be_written_fails() {
    let mut x = AtExchange::new("AT\r\n", "OK", 1000);
    x.step(AtEvent::TimedOut);
    x.step(AtEvent::Written(false));
    assert!(matches!(x.action(), AtAction::Finish(false)));
}

#[test]
fn exchange_that_is_rejected_fails() {
    let mut x = sent("OK", 1000);
    x.step(AtEvent::Elapsed(0));
    x.step(AtEvent::Elapsed(0));
    x.step(AtEvent::Received(b"ERROR\r\n"));
    assert!(matches!(x.action(), AtAction::Finish(false)));
}

#[test]
fn first_decisive_reply_decides_the_exchange() {
    let mut x = sent("OK", 1000);
    x.step(AtEvent::Elapsed(0));
    x.step(AtEvent::Elapsed(0));
    x.step(AtEvent::Received(b"ERROR\r\n"));
    x.step(AtEvent::Elapsed(1));
    x.step(AtEvent::Elapsed(1));
    x.step(AtEvent::Received(b"OK\r\n"));
    assert!(x.stage == AtStage::Done(false));

    let mut y = sent("OK", 1000);
    y.step(AtEvent::Received(b"OK\r\n"));
    assert!(y.stage == AtStage::Checking);
    y.step(AtEvent::Elapsed(1000));
    assert!(y.stage == AtStage::Done(false));
}

#[test]
fn exchange_whose_time_runs_out_fails() {
    let mut x = sent("OK", 1000);
    x.step(AtEvent::Elapsed(999));
    x.step(AtEvent::Elapsed(1000));
    assert!(asks_to_read(&x, 10));
    x.step(AtEvent::TimedOut);
    x.step(AtEvent::Elapsed(1010));
    assert!(matches!(x.action(), AtAction::Finish(false)));
}

#[test]
fn exchange_reads_on_after_a_line_error() {
    let mut x = sent(">", 2000);
    x.step(AtEvent::Elapsed(1));
    x.step(AtEvent::Elapsed(1));
    x.step(AtEvent::ReadFailed);
    assert!(x.stage == AtStage::Checking);
}

#[test]
fn exchange_ignores_events_out_of_place() {
    let mut x = AtExchange::new("AT\r\n", "OK", 1000);
    x.step(AtEvent::Written(true));
    x.step(AtEvent::Elapsed(5000));
    assert!(x.stage == AtStage::Draining);
}
