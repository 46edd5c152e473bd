use cps_station::bluetooth::{answer, Received};
use cps_station::dwin::{find_touches, reading_frames, write_float_frame, Touch};
use cps_station::rs485::{reply_steps, start_step, LineStep, RequestMatcher, REPLY};

#[test]
fn request_is_found() {
    let mut m = RequestMatcher::new();
    assert!(m.feed(b"$?;"));
    assert!(!m.feed(b""));
    assert!(!m.feed(b"noise"));
    assert!(m.feed(b"xx$?;yy"));
}

#[test]
fn request_in_pieces_is_found_once() {
    let mut m = RequestMatcher::new();
    assert!(!m.feed(b"$"));
    assert!(!m.feed(b"?"));
    assert!(m.feed(b";"));
    assert!(!m.feed(b";"));
}

#[test]
fn request_after_a_false_start_is_found() {
    let mut m = RequestMatcher::new();
    assert!(m.feed(b"$$?;"));
    assert!(m.feed(b"$?$?;"));
    assert!(!m.feed(b"$?x;"));
    assert!(!m.feed(b"?;"));
}

#[test]
fn cuts_make_no_difference() {
    let stream = b"a$?;$$?;?$?$?;;$?";
    let mut whole = RequestMatcher::new();
    let found = whole.feed(stream);
    for cut in 0..=stream.len() {
        let mut m = RequestMatcher::new();
        let first = m.feed(&stream[..cut]);
        let second = m.feed(&stream[cut..]);
        assert_eq!(first || second, found);
        assert!(m.feed(b";"));
    }
}

#[test]
fn request_is_found_in_the_piece_it_ends_in() {
    let stream = b"a$?;$$?;b";
    for cut in 0..=stream.len() {
        let mut m = RequestMatcher::new();
        assert_eq!(m.feed(&stream[..cut]), cut >= 4);
        assert_eq!(m.feed(&stream[cut..]), cut < 8);
    }
}

#[test]
fn pieces_are_taken_off_whole_and_answered_where_a_request_ends() {
    let mut m = RequestMatcher::new();
    let first = m.turn(b"noise$?");
    assert_eq!(first.consume, 7);
    assert!(!first.reply);
    assert!(first.steps.is_empty());
    let second = m.turn(b";$?;x");
    assert_eq!(second.consume, 5);
    assert!(second.reply);
    assert_eq!(second.steps.len(), 7);
    let third = m.turn(b"");
    assert_eq!(third.consume, 0);
    assert!(!third.reply);
    assert!(third.steps.is_empty());
}

#[test]
fn line_is_listened_to_between_pieces() {
    let mut m = RequestMatcher::new();
    assert!(matches!(start_step(), LineStep::Transmit(false)));
    let mut sending = false;
    for piece in ["a$", "?;", "$?;", "", "$?", "?", "$$?;"] {
        assert!(!sending);
        for step in m.turn(piece.as_bytes()).steps {
            match step {
                LineStep::Transmit(on) => sending = on,
                LineStep::Write(_) => assert!(sending),
                _ => {}
            }
        }
    }
    assert!(!sending);
}

#[test]
fn reply_goes_out_twice() {
    let steps = reply_steps();
    assert_eq!(steps.len(), 7);
    assert!(matches!(steps[0], LineStep::Transmit(true)));
    assert!(matches!(steps[1], LineStep::Write(t) if t == REPLY));
    assert!(matches!(steps[2], LineStep::Flush));
    assert!(matches!(steps[3], LineStep::Sleep(500)));
    assert!(matches!(steps[4], LineStep::Write("$20|11|2|0|0|10|0|1|0|;\r\n")));
    assert!(matches!(steps[5], LineStep::Flush));
    assert!(matches!(steps[6], LineStep::Transmit(false)));
}

#[test]
fn bluetooth_text_is_acknowledged() {
    let turn = answer(b"hello").unwrap();
    assert_eq!(turn.consume, 5);
    assert_eq!(turn.reply, "AAA\r\n");
    assert!(matches!(turn.received, Received::Text("hello")));
}

#[test]
fn bluetooth_bytes_are_acknowledged() {
    let turn = answer(b"\xFF\x00").unwrap();
    assert_eq!(turn.consume, 2);
    assert_eq!(turn.reply, "AAA\r\n");
    assert!(matches!(turn.received, Received::Raw(b"\xFF\x00")));
}

#[test]
fn bluetooth_silence_is_not_answered() {
    assert!(answer(b"").is_none());
}

#[test]
fn float_frame_bytes() {
    assert_eq!(
        write_float_frame(0x5000, 12.5f32.to_bits()),
        [0x5A, 0xA5, 0x07, 0x82, 0x50, 0x00, 0x41, 0x48, 0x00, 0x00]
    );
    assert_eq!(
        write_float_frame(0x1234, 0x89ABCDEF),
        [0x5A, 0xA5, 0x07, 0x82, 0x12, 0x34, 0x89, 0xAB, 0xCD, 0xEF]
    );
}

#[test]
fn readings_go_to_their_addresses() {
    let frames = reading_frames(1, 2, 3);
    assert_eq!(frames.len(), 3);
    assert_eq!(frames[0], write_float_frame(0x5000, 1));
    assert_eq!(frames[1], write_float_frame(0x5002, 2));
    assert_eq!(frames[2], write_float_frame(0x5004, 3));
}

#[test]
fn touches_are_found() {
    let buf = [
        0x5A, 0xA5, 0x06, 0x83, 0x50, 0x12, 0x01, 0x01, 0x2C, 0x5A, 0xA5, 0x06, 0x83, 0x50, 0x17,
        0x01, 0x00, 0x01, 0x5A, 0xA5, 0x06, 0x83, 0x50, 0x30, 0x01, 0x00, 0x00,
    ];
    assert_eq!(
        find_touches(&buf),
        vec![Touch::Pwm(300), Touch::Battery(1), Touch::Sim800(0)]
    );
}

#[test]
fn touch_after_noise_is_found() {
    let buf = [
        0x00, 0xA5, 0x5A, 0x5A, 0xA5, 0x06, 0x83, 0x50, 0x12, 0x01, 0x00, 0x07, 0x5A,
    ];
    assert_eq!(find_touches(&buf), vec![Touch::Pwm(7)]);
}

#[test]
fn other_frames_are_passed_over() {
    assert_eq!(find_touches(&[]), vec![]);
    assert_eq!(find_touches(&[0x5A, 0xA5, 0x03, 0x82, 0x4F, 0x4B]), vec![]);
    assert_eq!(
        find_touches(&[0x5A, 0xA5, 0x06, 0x83, 0x40, 0x00, 0x01, 0x00, 0x01]),
        vec![]
    );
    assert_eq!(
        find_touches(&[0x5A, 0xA5, 0x05, 0x83, 0x50, 0x12, 0x01, 0x00]),
        vec![]
    );
    assert_eq!(find_touches(&write_float_frame(0x5012, 0)), vec![]);
}

#[test]
fn cut_off_frame_does_not_hide_the_next() {
    let buf = [
        0x5A, 0xA5, 0xFF, 0x83, 0x5A, 0xA5, 0x06, 0x83, 0x50, 0x17, 0x01, 0x00, 0x02,
    ];
    assert_eq!(find_touches(&buf), vec![Touch::Battery(2)]);
    assert_eq!(find_touches(&[0x5A, 0xA5]), vec![]);
    assert_eq!(find_touches(&[0x5A, 0xA5, 0x06, 0x83, 0x50]), vec![]);
}
