use cps_station::display::{
    frame, layout, signal_bars, signal_caption, value_line, Anchor, DisplayCmd, Point, Reading,
    ScreenStep, Shape, Telemetry,
};
use cps_station::encoder::{DutyChange, Encoder};
use cps_station::fixed::{short_line, TextOverflow};
use cps_station::power::{
    ChargeMonitor, Heartbeat, LedManager, Lights, PowerAction, PowerEvent, PowerMonitor,
    PowerSource, StatAction, StatEvent, StatReport,
};
use cps_station::sensors::{diag_line, station_state, thermistor_ratio, Ratio};

fn reading(value: f32) -> Reading {
    Reading {
        bits: value.to_bits(),
    }
}

fn sample(open: bool, percent: u8) -> Telemetry {
    let mut t = station_state(
        reading(12.4),
        reading(1.2),
        reading(11.8),
        reading(0.5),
        reading(-0.85),
        open,
        short_line("SYSTEM OK").unwrap(),
    );
    t.gsm_signal_percent = percent;
    t
}

fn is_value(s: &Shape, l: &str, r: f32, d: u8, u: &str, y: i32) -> bool {
    match s {
        Shape::Value {
            label,
            reading,
            decimals,
            unit,
            at,
        } => {
            *label == l
                && reading.bits == r.to_bits()
                && *decimals == d
                && *unit == u
                && *at == Point { x: 0, y }
        }
        _ => false,
    }
}

fn is_rect(s: &Shape, x: i32, y: i32, w: u32, h: u32, f: bool) -> bool {
    match s {
        Shape::Rect {
            corner,
            width,
            height,
            filled,
        } => *corner == Point { x, y } && *width == w && *height == h && *filled == f,
        _ => false,
    }
}

fn is_line(s: &Shape, x1: i32, y1: i32, x2: i32, y2: i32) -> bool {
    match s {
        Shape::Line { from, to } => {
            *from == Point { x: x1, y: y1 } && *to == Point { x: x2, y: y2 }
        }
        _ => false,
    }
}

#[test]
fn log_message_alone() {
    let shapes = layout(DisplayCmd::Log(short_line("Booting system...").unwrap()));
    assert_eq!(shapes.len(), 1);
    match &shapes[0] {
        Shape::Message {
            message,
            at,
            anchor,
        } => {
            assert_eq!(message.as_str(), "Booting system...");
            assert_eq!(*at, Point { x: 0, y: 8 });
            assert_eq!(*anchor, Anchor::Baseline);
        }
        _ => panic!("not a message"),
    }
}

#[test]
fn picture_with_the_door_closed() {
    let s = layout(DisplayCmd::Update(sample(false, 65)));
    assert_eq!(s.len(), 15);
    assert!(is_value(&s[0], "U= ", 12.4, 1, "V", 0));
    assert!(is_value(&s[1], "I= ", 1.2, 2, "A", 10));
    assert!(is_line(&s[2], 0, 20, 50, 20));
    assert!(is_value(&s[3], "U= ", 11.8, 1, "V", 22));
    assert!(is_value(&s[4], "I= ", 0.5, 2, "A", 32));
    assert!(is_line(&s[5], 0, 42, 50, 42));
    assert!(is_value(&s[6], "P= ", -0.85, 2, "V", 44));
    assert!(is_rect(&s[7], 112, 9, 3, 3, true));
    assert!(is_rect(&s[8], 116, 6, 3, 6, true));
    assert!(is_rect(&s[9], 120, 3, 3, 9, true));
    assert!(is_rect(&s[10], 124, 0, 3, 12, false));
    match &s[11] {
        Shape::Caption { text, at } => {
            assert_eq!(text.as_str(), "65");
            assert_eq!(*at, Point { x: 98, y: 2 });
        }
        _ => panic!("not a caption"),
    }
    assert!(is_rect(&s[12], 116, 22, 8, 12, false));
    assert!(is_rect(&s[13], 121, 27, 2, 2, true));
    match &s[14] {
        Shape::Message {
            message,
            at,
            anchor,
        } => {
            assert_eq!(message.as_str(), "SYSTEM OK");
            assert_eq!(*at, Point { x: 0, y: 54 });
            assert_eq!(*anchor, Anchor::Top);
        }
        _ => panic!("not a message"),
    }
}

#[test]
fn picture_with_the_door_open() {
    let s = layout(DisplayCmd::Update(sample(true, 0)));
    assert_eq!(s.len(), 18);
    assert!(is_rect(&s[12], 120, 22, 8, 12, false));
    assert!(is_line(&s[13], 120, 22, 114, 19));
    assert!(is_line(&s[14], 120, 34, 114, 36));
    assert!(is_line(&s[15], 114, 19, 114, 36));
    assert!(is_rect(&s[16], 115, 27, 2, 2, true));
}

#[test]
fn frame_clears_draws_in_order_and_shows() {
    let steps = frame(DisplayCmd::Update(sample(false, 65)));
    assert_eq!(steps.len(), 17);
    assert!(matches!(steps[0], ScreenStep::Clear));
    assert!(matches!(&steps[1], ScreenStep::Draw(s) if is_value(s, "U= ", 12.4, 1, "V", 0)));
    assert!(matches!(&steps[3], ScreenStep::Draw(s) if is_line(s, 0, 20, 50, 20)));
    assert!(matches!(&steps[15], ScreenStep::Draw(Shape::Message { .. })));
    assert!(matches!(steps[16], ScreenStep::Flush));
}

#[test]
fn everything_is_on_the_screen() {
    for percent in [0u8, 20, 21, 50, 51, 80, 81, 255] {
        for shape in layout(DisplayCmd::Update(sample(percent % 2 == 0, percent))) {
            if let Shape::Rect {
                corner,
                width,
                height,
                ..
            } = shape
            {
                assert!(corner.x >= 0 && corner.x + width as i32 <= 128);
                assert!(corner.y >= 0 && corner.y + height as i32 <= 64);
            }
        }
    }
}

#[test]
fn bars_by_signal() {
    assert_eq!(signal_bars(0), 1);
    assert_eq!(signal_bars(20), 1);
    assert_eq!(signal_bars(21), 2);
    assert_eq!(signal_bars(50), 2);
    assert_eq!(signal_bars(51), 3);
    assert_eq!(signal_bars(80), 3);
    assert_eq!(signal_bars(81), 4);
    assert_eq!(signal_bars(255), 4);
}

#[test]
fn signal_in_digits() {
    assert_eq!(signal_caption(0).as_str(), "0");
    assert_eq!(signal_caption(85).as_str(), "85");
    assert_eq!(signal_caption(255).as_str(), "255");
}

#[test]
fn value_line_joins_its_parts() {
    assert_eq!(value_line("U= ", "12.4", "V").unwrap().as_str(), "U= 12.4V");
    let digits = "0".repeat(60);
    assert_eq!(value_line("U= ", &digits, "V").unwrap().len(), 64);
    let digits = "0".repeat(61);
    assert_eq!(value_line("U= ", &digits, "V"), Err(TextOverflow));
    assert_eq!(value_line(&"l".repeat(65), "", ""), Err(TextOverflow));
    assert_eq!(value_line("", &"d".repeat(65), ""), Err(TextOverflow));
}

#[test]
fn telemetry_defaults_and_copies() {
    let t = Telemetry::default();
    assert_eq!(t.mod1_v.bits, 0);
    assert_eq!(t.p.bits, 0);
    assert!(!t.is_door_open);
    assert_eq!(t.gsm_signal_percent, 0);
    assert_eq!(t.diag_msg.as_str(), "");
    let c = sample(true, 33).clone();
    assert_eq!(c.mod2_v, reading(11.8));
    assert!(c.is_door_open);
    assert_eq!(c.gsm_signal_percent, 33);
    assert_eq!(c.diag_msg.as_str(), "SYSTEM OK");
}

#[test]
fn round_becomes_a_state() {
    let t = station_state(
        reading(1.0),
        reading(2.0),
        reading(3.0),
        reading(4.0),
        reading(5.0),
        true,
        short_line("x").unwrap(),
    );
    assert_eq!(t.mod1_v, reading(1.0));
    assert_eq!(t.mod1_i, reading(2.0));
    assert_eq!(t.mod2_v, reading(3.0));
    assert_eq!(t.mod2_i, reading(4.0));
    assert_eq!(t.p, reading(5.0));
    assert!(t.is_door_open);
    assert_eq!(t.gsm_signal_percent, 85);
    assert_eq!(t.diag_msg.as_str(), "x");
}

#[test]
fn thermistor_shorts_are_told_apart() {
    assert_eq!(thermistor_ratio(0), None);
    assert_eq!(thermistor_ratio(4095), None);
    assert_eq!(thermistor_ratio(65535), None);
    assert_eq!(thermistor_ratio(1), Some(Ratio { over: 1, under: 4094 }));
    assert_eq!(thermistor_ratio(4094), Some(Ratio { over: 4094, under: 1 }));
    let low = thermistor_ratio(2000).unwrap();
    let high = thermistor_ratio(2001).unwrap();
    assert!((low.over as u32) * (high.under as u32) < (high.over as u32) * (low.under as u32));
}

#[test]
fn diagnosis_fits_or_overflows() {
    assert_eq!(diag_line("3.71", "24").unwrap().as_str(), "BAT: 3.71V T1:24C");
    assert_eq!(diag_line(&"1".repeat(21), "").unwrap().len(), 32);
    assert_eq!(diag_line(&"1".repeat(22), ""), Err(TextOverflow));
    assert_eq!(diag_line(&"1".repeat(40), ""), Err(TextOverflow));
    assert_eq!(diag_line("", &"1".repeat(22)), Err(TextOverflow));
    assert_eq!(diag_line(&"1".repeat(26), "1"), Err(TextOverflow));
    assert_eq!(diag_line(&"1".repeat(27), ""), Err(TextOverflow));
}

#[test]
fn slow_turn_moves_by_the_base_step() {
    let mut e = Encoder::new(100, 1000);
    assert!(e.can_turn(104));
    assert_eq!(
        e.turn(104),
        Some(DutyChange {
            duty: 10,
            speed_clicks: 1,
            step_multiplier: 10
        })
    );
    assert_eq!(e.turn(104), None);
}

#[test]
fn fast_turn_moves_further() {
    let mut e = Encoder::new(0, 1000);
    assert_eq!(
        e.turn(13),
        Some(DutyChange {
            duty: 97,
            speed_clicks: 3,
            step_multiplier: 30
        })
    );
}

#[test]
fn knob_stops_at_both_ends() {
    let mut e = Encoder::new(10, 100);
    assert_eq!(e.turn(6), None);
    assert_eq!(e.turn(206).unwrap().duty, 100);
    assert_eq!(e.turn(406), None);
    assert_eq!(e.turn(206).unwrap().duty, 0);
}

#[test]
fn counter_wraps_around() {
    let mut e = Encoder::new(65534, 1000);
    assert_eq!(e.turn(2).unwrap().duty, 10);
    assert_eq!(e.turn(65534).unwrap().duty, 0);
}

#[test]
fn knob_turned_back_is_where_it_was() {
    let mut e = Encoder::new(500, 1000);
    e.turn(520);
    let before = e.turn(510);
    assert_eq!(e.turn(527).map(|c| c.step_multiplier), Some(40));
    assert_eq!(e.turn(510).map(|c| c.duty), before.map(|c| c.duty));
}

#[test]
fn movements_out_of_range_are_told() {
    let e = Encoder::new(0, 1000);
    assert!(e.can_turn(0));
    assert!(e.can_turn(29000));
    assert!(!e.can_turn(32767));
    assert!(!e.can_turn(32768));
    assert!(!e.can_turn(32769));
    let unlimited = Encoder::new(0, 0x2000_0000);
    assert!(unlimited.can_turn(0));
    assert!(!unlimited.can_turn(4));
    let wide = Encoder::new(0, 0x1FFF_FFFF);
    assert!(wide.can_turn(4));
}

#[test]
fn button_is_reported_once_per_press() {
    let mut e = Encoder::new(0, 1000);
    assert!(!e.press(false));
    assert!(e.press(true));
    assert!(!e.press(true));
    assert!(!e.press(false));
    assert!(e.press(true));
}

#[test]
fn power_source_follows_the_settled_line() {
    let mut m = PowerMonitor::new();
    assert_eq!(m.action(), PowerAction::ReadLine);
    m.step(PowerEvent::Low(false));
    assert_eq!(m.source, PowerSource::Battery);
    assert_eq!(m.action(), PowerAction::AwaitEdge);
    m.step(PowerEvent::Low(true));
    assert_eq!(m.source, PowerSource::Battery);
    m.step(PowerEvent::Edge);
    assert_eq!(m.action(), PowerAction::Sleep(50));
    m.step(PowerEvent::Slept);
    assert_eq!(m.action(), PowerAction::ReadLine);
    m.step(PowerEvent::Low(true));
    assert_eq!(m.source, PowerSource::External);
}

#[test]
fn blinking_charger_is_a_fault_until_it_settles() {
    let mut m = ChargeMonitor::new();
    assert_eq!(m.action(), StatAction::AwaitEdge);
    assert_eq!(m.step(StatEvent::Quiet), StatReport::Nothing);
    assert_eq!(m.step(StatEvent::Edge), StatReport::Nothing);
    assert_eq!(m.action(), StatAction::AwaitEdgeFor(600));
    assert!(!m.batt_error);
    assert_eq!(m.step(StatEvent::Edge), StatReport::FaultBegan);
    assert!(m.batt_error);
    assert_eq!(m.step(StatEvent::Edge), StatReport::Nothing);
    assert!(m.batt_error);
    assert_eq!(m.step(StatEvent::Quiet), StatReport::Settled);
    assert!(!m.batt_error);
    assert_eq!(m.action(), StatAction::AwaitEdge);
}

#[test]
fn single_edge_is_no_fault() {
    let mut m = ChargeMonitor::new();
    for _ in 0..3 {
        assert_eq!(m.step(StatEvent::Edge), StatReport::Nothing);
        assert_eq!(m.step(StatEvent::Quiet), StatReport::Settled);
        assert!(!m.batt_error);
    }
}

#[test]
fn lights_by_state() {
    let mut m = LedManager::new();
    let steady = Lights {
        external: true,
        battery: false,
        hold_ms: 100,
    };
    assert_eq!(m.lights(PowerSource::External, false), steady);
    let on_battery = Lights {
        external: false,
        battery: true,
        hold_ms: 100,
    };
    assert_eq!(m.lights(PowerSource::Battery, false), on_battery);
    assert_eq!(m.lights(PowerSource::Battery, true), on_battery);
    let dark = Lights {
        external: true,
        battery: false,
        hold_ms: 500,
    };
    let lit = Lights {
        external: true,
        battery: true,
        hold_ms: 500,
    };
    assert_eq!(m.lights(PowerSource::External, true), dark);
    assert_eq!(m.lights(PowerSource::External, true), lit);
    assert_eq!(m.lights(PowerSource::External, true), dark);
    assert_eq!(m.lights(PowerSource::External, false), steady);
    assert_eq!(m.lights(PowerSource::External, true), lit);
}

#[test]
fn heartbeat_alternates() {
    let mut h = Heartbeat::new();
    assert!(h.beat());
    assert!(!h.beat());
    assert!(h.beat());
}
