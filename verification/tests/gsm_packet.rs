use cps_station::gsm::crc::crc_8;
use cps_station::gsm::packet::{send_command, telemetry_packet};

#[test]
fn checksums_of_known_data() {
    assert_eq!(crc_8(b""), 255);
    assert_eq!(crc_8(b"\x00"), 53);
    assert_eq!(crc_8(b"A"), 45);
    assert_eq!(crc_8(b"123456789"), 11);
}

#[test]
fn checksum_piece_by_piece_with_itself_is_zero() {
    let mut data = b"123456789".to_vec();
    data.push(crc_8(&data));
    assert_eq!(crc_8(&data), 0);
}

#[test]
fn checksum_sees_every_single_byte_change() {
    let data = b"10000600|12|124|".to_vec();
    let intact = crc_8(&data);
    for at in 0..data.len() {
        for value in 0..=255u8 {
            let mut damaged = data.clone();
            damaged[at] = value;
            assert_eq!(crc_8(&damaged) == intact, value == data[at]);
        }
    }
}

#[test]
fn packet_of_ordinary_readings() {
    assert_eq!(
        telemetry_packet(12400, 1200, -850).as_str(),
        "10000600|12|124|-85|0|24|0|0|0|0|0|0|0|0|0|111;"
    );
}

#[test]
fn packet_of_zero_readings() {
    assert_eq!(
        telemetry_packet(0, 0, 0).as_str(),
        "10000600|0|0|0|0|24|0|0|0|0|0|0|0|0|0|225;"
    );
}

#[test]
fn packet_rounds_towards_zero() {
    assert_eq!(
        telemetry_packet(99, -99, -9).as_str(),
        "10000600|0|0|0|0|24|0|0|0|0|0|0|0|0|0|225;"
    );
    assert_eq!(
        telemetry_packet(48012, 5099, 4294967295).as_str(),
        "10000600|50|480|429496729|0|24|0|0|0|0|0|0|0|0|0|25;"
    );
}

#[test]
fn packet_of_the_widest_readings() {
    assert_eq!(
        telemetry_packet(i64::MIN, i64::MAX, i64::MIN).as_str(),
        "10000600|92233720368547758|-92233720368547758|-922337203685477580|0|24|0|0|0|0|0|0|0|0|0|203;"
    );
}

#[test]
fn packet_carries_the_checksum_of_what_precedes_it() {
    let packet = telemetry_packet(23017, 4410, -1105);
    let text = packet.as_str();
    let end = text.rfind('|').unwrap() + 1;
    let sum = crc_8(text[..end].as_bytes());
    assert_eq!(&text[end..], format!("{};", sum));
}

#[test]
fn packets_of_different_readings_differ() {
    assert_ne!(
        telemetry_packet(12400, 1200, -850).as_str(),
        telemetry_packet(12500, 1200, -850).as_str()
    );
    assert_eq!(
        telemetry_packet(12400, 1200, -850).as_str(),
        telemetry_packet(12499, 1299, -859).as_str()
    );
}

#[test]
fn damage_changes_the_checksum_digits() {
    let packet = telemetry_packet(12400, 1200, -850);
    let text = packet.as_str();
    let end = text.rfind('|').unwrap() + 1;
    let mut body = text[..end].as_bytes().to_vec();
    body[10] = b'9';
    assert_ne!(format!("{};", crc_8(&body)), &text[end..]);
}

#[test]
fn announcement_names_the_length() {
    let packet = telemetry_packet(12400, 1200, -850);
    assert_eq!(packet.len(), 47);
    assert_eq!(send_command(&packet).as_str(), "AT+CIPSEND=0,47\r\n");
}

#[test]
fn announcement_of_empty_and_full_strings() {
    let mut s: heapless::String<256> = heapless::String::new();
    assert_eq!(send_command(&s).as_str(), "AT+CIPSEND=0,0\r\n");
    for _ in 0..256 {
        s.push('x').unwrap();
    }
    assert_eq!(send_command(&s).as_str(), "AT+CIPSEND=0,256\r\n");
}
