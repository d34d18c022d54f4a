use ble_ad::ADStructure;
use ble_ad::ADType;
use ble_ad::parse_ad;
use ble_ad::parse_flags;
use ble_ad::parse_local_name;

#[test]
fn empty_buffer_yields_nothing() {
    assert_eq!(parse_ad(&[]), vec![]);
}

// Sweeps buffer lengths from empty up through one full element: the element
// declares a length of 2 (type byte plus one payload byte), so only the
// 3-byte buffer holds a well-formed element.
#[test]
fn boundary_sweep_one_element() {
    assert_eq!(parse_ad(&[]), vec![]);
    assert_eq!(parse_ad(&[0x02]), vec![]);
    assert_eq!(parse_ad(&[0x02, 0x01]), vec![]);
    assert_eq!(
        parse_ad(&[0x02, 0x01, 0x06]),
        vec![ADStructure {
            ad_type: ADType::Flags,
            data: vec![0x06],
        }]
    );
}

#[test]
fn length_one_element_has_empty_payload() {
    assert_eq!(
        parse_ad(&[0x01, 0x09]),
        vec![ADStructure {
            ad_type: ADType::CompleteLocalName,
            data: vec![],
        }]
    );
}

#[test]
fn zero_length_halts_scan() {
    assert_eq!(parse_ad(&[0x00]), vec![]);
    assert_eq!(parse_ad(&[0x00, 0x02, 0x01, 0x06]), vec![]);
    assert_eq!(
        parse_ad(&[0x02, 0x01, 0x06, 0x00, 0x02, 0x01, 0x06]),
        vec![ADStructure {
            ad_type: ADType::Flags,
            data: vec![0x06],
        }]
    );
}

#[test]
fn overlong_length_truncates_result() {
    // the second element declares five bytes but only two follow
    assert_eq!(
        parse_ad(&[0x02, 0x01, 0x06, 0x05, 0x09, 0x41]),
        vec![ADStructure {
            ad_type: ADType::Flags,
            data: vec![0x06],
        }]
    );
}

#[test]
fn unknown_type_code_keeps_payload() {
    assert_eq!(
        parse_ad(&[0x03, 0x42, 0x07, 0x08]),
        vec![ADStructure {
            ad_type: ADType::Unknown(0x42),
            data: vec![0x07, 0x08],
        }]
    );
}

#[test]
fn prefixes_of_a_buffer_parse_to_prefixes_of_its_result() {
    let d = vec![
        0x02, 0x01, 0x06, 0x05, 0x09, b'T', b'e', b's', b't', 0x04, 0x08, 0x01, 0x02, 0x03,
    ];
    let whole = parse_ad(&d);
    for n in 0..d.len() {
        let part = parse_ad(&d[..n]);
        assert_eq!(part[..], whole[..part.len()]);
    }
}

#[test]
fn flags_absent_for_other_lengths() {
    assert_eq!(parse_flags(&[0x01, 0x02, 0x03]), None);
    assert_eq!(parse_flags(&[0x00]), Some(0x00));
    assert_eq!(parse_flags(&[0xFF]), Some(0xFF));
}

#[test]
fn invalid_utf8_name_is_absent() {
    assert_eq!(parse_local_name(&[0xFF]), None);
    // a lone continuation byte and a truncated two-byte sequence
    assert_eq!(parse_local_name(&[0x80]), None);
    assert_eq!(parse_local_name(&[0xC3]), None);
    assert_eq!(parse_local_name(&[0xC3, 0x28]), None);
}

#[test]
fn two_byte_utf8_name_decodes() {
    assert_eq!(parse_local_name(&[0xC3, 0xA9]), Some("\u{E9}".to_string()));
}
