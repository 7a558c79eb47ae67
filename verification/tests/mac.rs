use linux_bt_proxy::ble::parse_ble_address;
use linux_bt_proxy::utils::{format_mac, parse_mac};

const WRONG_COUNT: &str = "Invalid MAC format: expected 6 hex bytes separated by ':'";

#[test]
fn formats_bytes_in_upper_case() {
    assert_eq!(format_mac(&[0xde, 0xad, 0xbe, 0xef, 0x00, 0x0a], ":"), "DE:AD:BE:EF:00:0A");
    assert_eq!(format_mac(&[0x01, 0x23, 0x45], ""), "012345");
    assert_eq!(format_mac(&[0x9f, 0xf9], " - "), "9F - F9");
    assert_eq!(format_mac(&[0x07], ":"), "07");
    assert_eq!(format_mac(&[], ":"), "");
}

#[test]
fn formats_every_byte_as_the_formatter_does() {
    for byte in 0..=255u8 {
        assert_eq!(format_mac(&[byte], ":"), format!("{byte:02X}"));
    }
}

#[test]
fn written_length_is_two_per_byte_and_the_separators() {
    assert_eq!(format_mac(&[1, 2, 3, 4], "--").len(), 14);
}

#[test]
fn parses_six_bytes() {
    assert_eq!(parse_mac("DE:AD:BE:EF:00:0A"), Ok([0xde, 0xad, 0xbe, 0xef, 0x00, 0x0a]));
    assert_eq!(parse_mac("de:ad:be:ef:0:a"), Ok([0xde, 0xad, 0xbe, 0xef, 0x00, 0x0a]));
    assert_eq!(parse_mac("0001:+2:003:4:5:+0F"), Ok([1, 2, 3, 4, 5, 15]));
}

#[test]
fn refuses_another_number_of_parts() {
    assert_eq!(parse_mac(""), Err(WRONG_COUNT.to_string()));
    assert_eq!(parse_mac("00:11:22:33:44"), Err(WRONG_COUNT.to_string()));
    assert_eq!(parse_mac("00:11:22:33:44:55:66"), Err(WRONG_COUNT.to_string()));
    assert_eq!(parse_mac("00-11-22-33-44-55"), Err(WRONG_COUNT.to_string()));
    assert_eq!(parse_mac("zz:11"), Err(WRONG_COUNT.to_string()));
}

#[test]
fn names_the_first_part_that_is_no_byte() {
    assert_eq!(parse_mac("00:1g:22:zz:44:55"), Err("Invalid hex byte: '1g'".to_string()));
    assert_eq!(parse_mac("00:11:22:33:44:"), Err("Invalid hex byte: ''".to_string()));
    assert_eq!(parse_mac("100:11:22:33:44:55"), Err("Invalid hex byte: '100'".to_string()));
    assert_eq!(parse_mac("00:+:22:33:44:55"), Err("Invalid hex byte: '+'".to_string()));
    assert_eq!(parse_mac("00:-1:22:33:44:55"), Err("Invalid hex byte: '-1'".to_string()));
    assert_eq!(parse_mac("00: 1:22:33:44:55"), Err("Invalid hex byte: ' 1'".to_string()));
    assert_eq!(parse_mac("00:é:22:33:44:55"), Err("Invalid hex byte: 'é'".to_string()));
}

#[test]
fn reads_a_part_as_the_standard_parser_does() {
    for first in 0x20..0x7fu8 {
        for second in 0x20..0x7fu8 {
            let part = format!("{}{}", first as char, second as char);
            if part.contains(':') {
                continue;
            }
            let parsed = parse_mac(&format!("1:2:3:4:5:{part}"));
            match u8::from_str_radix(&part, 16) {
                Ok(byte) => assert_eq!(parsed, Ok([1, 2, 3, 4, 5, byte])),
                Err(_) => assert_eq!(parsed, Err(format!("Invalid hex byte: '{part}'"))),
            }
        }
    }
    for part in ["0ff", "0100", "000000000000000000000ff", "+0ff", "++1", "+-1", "f", "F", "fF"] {
        let parsed = parse_mac(&format!("1:2:3:4:5:{part}"));
        assert_eq!(parsed.ok().map(|mac| mac[5]), u8::from_str_radix(part, 16).ok());
    }
}

#[test]
fn reads_back_what_was_written() {
    let mac = [0x00, 0x1a, 0x7d, 0xda, 0x71, 0xff];
    assert_eq!(parse_mac(&format_mac(&mac, ":")), Ok(mac));
}

#[test]
fn device_addresses_are_numbers() {
    assert_eq!(parse_ble_address("AA:BB:CC:DD:EE:FF"), 0xaabbccddeeff);
    assert_eq!(parse_ble_address("00:00:00:00:01:00"), 0x100);
    assert_eq!(parse_ble_address(""), 0);
    assert_eq!(parse_ble_address("1"), 1);
    assert_eq!(parse_ble_address("12:zz:34"), 0x120034);
    assert_eq!(parse_ble_address("12:100:34"), 0x120034);
}

#[test]
fn device_addresses_keep_the_last_eight_bytes() {
    assert_eq!(parse_ble_address("1:2:3:4:5:6:7:8"), 0x0102030405060708);
    assert_eq!(parse_ble_address("ff:1:2:3:4:5:6:7:8"), 0x0102030405060708);
}

#[test]
fn device_addresses_agree_with_mac_addresses() {
    let mac = [0x12, 0x34, 0x56, 0x78, 0x9a, 0xbc];
    assert_eq!(parse_ble_address(&format_mac(&mac, ":")), 0x123456789abc);
}
