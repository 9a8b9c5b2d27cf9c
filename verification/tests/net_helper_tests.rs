use varmint::net::helper::{check_max_packet_size, parse_mac, HelperError};

#[test]
fn parses_a_mac_address() {
    assert_eq!(parse_mac("be:ef:00:01:02:ab"), Ok([0xbe, 0xef, 0x00, 0x01, 0x02, 0xab]));
    assert_eq!(parse_mac("BE:EF:0:1:2:AB"), Ok([0xbe, 0xef, 0x00, 0x01, 0x02, 0xab]));
}

#[test]
fn mac_fields_may_carry_a_plus_sign_and_leading_zeros() {
    assert_eq!(parse_mac("+1:02:003:0004:5:6"), Ok([1, 2, 3, 4, 5, 6]));
}

#[test]
fn rejects_too_few_or_too_many_fields() {
    assert_eq!(parse_mac("be:ef:00:01:02"), Err(HelperError::InvalidMac));
    assert_eq!(parse_mac("be:ef:00:01:02:ab:cd"), Err(HelperError::InvalidMac));
    assert_eq!(parse_mac(""), Err(HelperError::InvalidMac));
    assert_eq!(parse_mac("be:ef:00:01:02:ab:"), Err(HelperError::InvalidMac));
}

#[test]
fn rejects_bad_fields() {
    assert_eq!(parse_mac("be:ef::01:02:ab"), Err(HelperError::InvalidMac));
    assert_eq!(parse_mac("be:ef:100:01:02:ab"), Err(HelperError::InvalidMac));
    assert_eq!(parse_mac("be:eg:00:01:02:ab"), Err(HelperError::InvalidMac));
    assert_eq!(parse_mac("be:ef:+:01:02:ab"), Err(HelperError::InvalidMac));
    assert_eq!(parse_mac("be:ef:-1:01:02:ab"), Err(HelperError::InvalidMac));
    assert_eq!(parse_mac("be:ef: 0:01:02:ab"), Err(HelperError::InvalidMac));
}

#[test]
fn mac_parse_agrees_with_std_radix_parse() {
    for text in ["0:1:2:3:4:5", "ff:FF:fF:0ff:+ff:00", "1:2:3:4:5:100", "a:b:c:d:e"] {
        let expected: Option<Vec<u8>> = {
            let parts: Vec<&str> = text.split(':').collect();
            if parts.len() == 6 {
                parts.iter().map(|p| u8::from_str_radix(p, 16).ok()).collect()
            } else {
                None
            }
        };
        assert_eq!(parse_mac(text).ok().map(|m| m.to_vec()), expected);
    }
}

#[test]
fn checks_the_largest_packet() {
    assert_eq!(check_max_packet_size(1514), Ok(1514));
    assert_eq!(check_max_packet_size(14), Ok(14));
    assert_eq!(check_max_packet_size(65536), Ok(65536));
    assert_eq!(check_max_packet_size(13), Err(HelperError::InvalidPacketSize(13)));
    assert_eq!(check_max_packet_size(65537), Err(HelperError::InvalidPacketSize(65537)));
}
