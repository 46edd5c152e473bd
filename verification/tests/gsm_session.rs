use cps_station::gsm::session::{Modem, ModemAction, ModemEvent, Stage};

fn exchange_is(m: &Modem, command: &str, expected: &str, wait_ms: u64) -> bool {
    match m.action() {
        ModemAction::Exchange(c, e, w) => c == command && e == expected && w == wait_ms,
        _ => false,
    }
}

fn sleeps(m: &Modem, ms: u64) -> bool {
    matches!(m.action(), ModemAction::Sleep(t) if t == ms)
}

fn reads(m: &Modem, ms: u64) -> bool {
    matches!(m.action(), ModemAction::Read(t) if t == ms)
}

fn writes(m: &Modem, text: &str) -> bool {
    matches!(m.action(), ModemAction::Write(t) if t == text)
}

fn settled() -> Modem {
    let mut m = Modem::new();
    m.step(ModemEvent::Done);
    m.step(ModemEvent::Status(true));
    m
}

fn registering() -> Modem {
    let mut m = settled();
    m.step(ModemEvent::Done);
    m.step(ModemEvent::NothingReceived);
    m.step(ModemEvent::Exchanged(true));
    m.step(ModemEvent::Exchanged(false));
    m
}

fn registered() -> Modem {
    let mut m = registering();
    m.step(ModemEvent::NothingReceived);
    m.step(ModemEvent::Done);
    m.step(ModemEvent::NothingReceived);
    m.step(ModemEvent::Done);
    m.step(ModemEvent::Received(b"\r\n+CEREG: 0,1\r\n\r\nOK\r\n"));
    m
}

fn connecting() -> Modem {
    let mut m = registered();
    for _ in 0..5 {
        m.step(ModemEvent::Exchanged(false));
    }
    m.step(ModemEvent::Done);
    m
}

#[test]
fn modem_that_is_off_is_switched_on() {
    let mut m = Modem::new();
    assert!(matches!(m.action(), ModemAction::LowerLines));
    m.step(ModemEvent::Done);
    assert!(matches!(m.action(), ModemAction::ReadStatus));
    m.step(ModemEvent::Status(false));
    assert!(matches!(m.action(), ModemAction::SetPowerKey(true)));
    m.step(ModemEvent::Done);
    assert!(sleeps(&m, 1000));
    m.step(ModemEvent::Done);
    assert!(matches!(m.action(), ModemAction::SetPowerKey(false)));
    m.step(ModemEvent::Done);
    assert!(matches!(m.action(), ModemAction::ReadStatus));
    m.step(ModemEvent::Status(false));
    assert!(sleeps(&m, 100));
    m.step(ModemEvent::Done);
    m.step(ModemEvent::Status(true));
    assert!(sleeps(&m, 3000));
}

#[test]
fn modem_that_stays_off_is_given_up_on_after_fifty_polls() {
    let mut m = Modem::new();
    m.step(ModemEvent::Done);
    m.step(ModemEvent::Status(false));
    m.step(ModemEvent::Done);
    m.step(ModemEvent::Done);
    m.step(ModemEvent::Done);
    let mut waits = 0;
    while m.stage() != Stage::Settle {
        m.step(ModemEvent::Status(false));
        if m.stage() != Stage::Settle {
            assert!(sleeps(&m, 100));
            m.step(ModemEvent::Done);
            waits += 1;
        }
    }
    assert_eq!(waits, 50);
}

#[test]
fn modem_that_is_on_is_left_on() {
    let m = settled();
    assert!(sleeps(&m, 3000));
}

#[test]
fn synchronisation_is_repeated_until_it_succeeds() {
    let mut m = settled();
    m.step(ModemEvent::Done);
    assert!(reads(&m, 500));
    m.step(ModemEvent::Received(b"RDY"));
    assert!(exchange_is(&m, "AT\r\n", "OK", 1000));
    m.step(ModemEvent::Exchanged(false));
    assert!(sleeps(&m, 500));
    m.step(ModemEvent::Done);
    assert!(exchange_is(&m, "AT\r\n", "OK", 1000));
    m.step(ModemEvent::Exchanged(true));
    assert!(exchange_is(&m, "ATE0\r\n", "OK", 1000));
}

#[test]
fn registration_asks_both_networks() {
    let mut m = registering();
    assert!(reads(&m, 50));
    m.step(ModemEvent::NothingReceived);
    assert!(writes(&m, "AT+CPIN?\r\n"));
    m.step(ModemEvent::Done);
    assert!(reads(&m, 1000));
    m.step(ModemEvent::Received(b"+CPIN: READY"));
    assert!(writes(&m, "AT+CEREG?\r\n"));
    m.step(ModemEvent::Done);
    assert!(reads(&m, 1000));
    m.step(ModemEvent::Received(b"+CEREG: 0,2\r\n\r\nOK\r\n"));
    assert!(writes(&m, "AT+CREG?\r\n"));
    m.step(ModemEvent::Done);
    assert!(reads(&m, 1000));
    m.step(ModemEvent::NothingReceived);
    assert!(sleeps(&m, 3000));
    m.step(ModemEvent::Done);
    assert!(m.stage() == Stage::RegPurge);
}

#[test]
fn registration_by_the_second_network() {
    let mut m = registering();
    m.step(ModemEvent::NothingReceived);
    m.step(ModemEvent::Done);
    m.step(ModemEvent::NothingReceived);
    m.step(ModemEvent::Done);
    m.step(ModemEvent::NothingReceived);
    m.step(ModemEvent::Done);
    m.step(ModemEvent::Received(b"+CREG: 0,5\r\n\r\nOK\r\n"));
    assert!(m.stage() == Stage::Context);
}

#[test]
fn connection_is_set_up_in_order() {
    let mut m = registered();
    assert!(exchange_is(&m, "AT+CGDCONT=1,\"IP\",\"www\"\r\n", "OK", 2000));
    m.step(ModemEvent::Exchanged(true));
    assert!(exchange_is(&m, "AT+CGACT=1,1\r\n", "OK", 5000));
    m.step(ModemEvent::Exchanged(false));
    assert!(exchange_is(&m, "AT+CIPCLOSE=0\r\n", "OK", 1500));
    m.step(ModemEvent::Exchanged(false));
    assert!(exchange_is(&m, "AT+NETCLOSE\r\n", "OK", 1500));
    m.step(ModemEvent::Exchanged(true));
    assert!(exchange_is(&m, "AT+NETOPEN\r\n", "OK", 5000));
    m.step(ModemEvent::Exchanged(true));
    assert!(sleeps(&m, 1000));
    m.step(ModemEvent::Done);
    assert!(exchange_is(
        &m,
        "AT+CIPOPEN=0,\"TCP\",\"scz.pge.md\",16992\r\n",
        "+CIPOPEN: 0,0",
        15000
    ));
}

#[test]
fn packet_is_announced_sent_and_followed_by_listening() {
    let mut m = connecting();
    m.step(ModemEvent::Exchanged(true));
    assert!(matches!(m.action(), ModemAction::ReadSensors));
    m.step(ModemEvent::Readings(12400, 1200, -850));
    assert!(exchange_is(&m, "AT+CIPSEND=0,47\r\n", ">", 2000));
    m.step(ModemEvent::Exchanged(true));
    assert!(exchange_is(
        &m,
        "10000600|12|124|-85|0|24|0|0|0|0|0|0|0|0|0|111;",
        "OK",
        10000
    ));
    m.step(ModemEvent::Exchanged(true));
    assert!(matches!(m.action(), ModemAction::StartClock));
    m.step(ModemEvent::Done);
    assert!(matches!(m.action(), ModemAction::ReadClock));
    m.step(ModemEvent::Elapsed(59));
    assert!(reads(&m, 500));
    m.step(ModemEvent::Received(b"hello"));
    m.step(ModemEvent::Elapsed(60));
    assert!(matches!(m.action(), ModemAction::ReadSensors));
    m.step(ModemEvent::Readings(0, 0, 0));
    assert!(exchange_is(&m, "AT+CIPSEND=0,42\r\n", ">", 2000));
}

fn assert_hangs_up(mut m: Modem) {
    assert!(exchange_is(&m, "AT+CIPCLOSE=0\r\n", "OK", 2000));
    m.step(ModemEvent::Exchanged(false));
    assert!(sleeps(&m, 10000));
    m.step(ModemEvent::Done);
    assert!(m.stage() == Stage::RegPurge);
}

#[test]
fn refused_connection_is_closed_and_tried_again() {
    let mut m = connecting();
    m.step(ModemEvent::Exchanged(false));
    assert_hangs_up(m);
}

#[test]
fn missing_prompt_ends_the_connection() {
    let mut m = connecting();
    m.step(ModemEvent::Exchanged(true));
    m.step(ModemEvent::Readings(1, 2, 3));
    m.step(ModemEvent::Exchanged(false));
    assert_hangs_up(m);
}

#[test]
fn undelivered_packet_ends_the_connection() {
    let mut m = connecting();
    m.step(ModemEvent::Exchanged(true));
    m.step(ModemEvent::Readings(1, 2, 3));
    m.step(ModemEvent::Exchanged(true));
    m.step(ModemEvent::Exchanged(false));
    assert_hangs_up(m);
}

#[test]
fn every_packet_waits_for_its_own_readings_and_prompt() {
    let mut m = connecting();
    m.step(ModemEvent::Exchanged(true));
    m.step(ModemEvent::Exchanged(true));
    assert!(m.stage() == Stage::Sample);
    m.step(ModemEvent::Readings(1, 2, 3));
    m.step(ModemEvent::Readings(4, 5, 6));
    assert!(m.stage() == Stage::Prompt);
    m.step(ModemEvent::Exchanged(true));
    assert!(m.stage() == Stage::Deliver);
    m.step(ModemEvent::Exchanged(true));
    m.step(ModemEvent::Done);
    m.step(ModemEvent::Elapsed(60));
    m.step(ModemEvent::Exchanged(true));
    assert!(m.stage() == Stage::Sample);
}

#[test]
fn session_ignores_events_out_of_place() {
    let mut m = registered();
    m.step(ModemEvent::Done);
    m.step(ModemEvent::Status(false));
    m.step(ModemEvent::Readings(1, 2, 3));
    m.step(ModemEvent::Elapsed(99));
    m.step(ModemEvent::NothingReceived);
    assert!(m.stage() == Stage::Context);
}
