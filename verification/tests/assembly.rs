use common::krx_msg::{extract, KrxMsg};
use common::text::parse_decimal;

fn message(code: &[u8], filler: usize, tail: &[u8]) -> Vec<u8> {
    let mut payload = code.to_vec();
    payload.extend(std::iter::repeat(b' ').take(filler));
    payload.extend_from_slice(tail);
    payload
}

#[test]
fn extract_is_exact_at_the_boundary() {
    let payload = b"0123456789";
    assert_eq!(extract(payload, &(3..10)), Some(&payload[3..10]));
    assert_eq!(extract(payload, &(3..11)), None);
    assert_eq!(extract(payload, &(0..10)), Some(&payload[..]));
    assert_eq!(extract(payload, &(10..10)), Some(&payload[10..]));
    assert_eq!(extract(payload, &(4..6)), Some(&b"45"[..]));
    assert_eq!(extract(b"", &(0..0)), Some(&b""[..]));
    assert_eq!(extract(b"", &(0..1)), None);
}

#[test]
fn quote_message_decodes_in_full() {
    let mut payload = b"B606F00001234".to_vec();
    payload.extend_from_slice(b"G140");
    payload.extend_from_slice(b"KR4165N30007");
    payload.extend_from_slice(b" and a tail\xff");
    let msg = KrxMsg::new_from_payload(20240610, &payload, Some(17), Some(19)).unwrap();
    assert_eq!(msg.date, 20240610);
    assert_eq!(msg.trcode, "B606F");
    assert_eq!(msg.instcode, Some("KR4165N30007".to_string()));
    assert_eq!(msg.distidx, Some(1234));
    assert_eq!(msg.packet_timestamp, Some(17));
    assert_eq!(msg.timestamp, Some(19));
    assert_eq!(msg.payload, payload);
}

#[test]
fn filler_in_the_index_leaves_it_out() {
    let payload = message(b"B606F", 12, b"KR4165N30007 tail");
    let msg = KrxMsg::new_from_payload(20240610, &payload, None, None).unwrap();
    assert_eq!(msg.trcode, "B606F");
    assert_eq!(msg.instcode, Some("KR4165N30007".to_string()));
    assert_eq!(msg.distidx, None);
    assert_eq!(msg.packet_timestamp, None);
    assert_eq!(msg.timestamp, None);
}

#[test]
fn instrument_code_is_read_at_its_place_and_nowhere_else() {
    let mut payload = b"B606F00000042".to_vec();
    payload.extend_from_slice(&[b' '; 9]);
    payload.extend_from_slice(b"KR4165N30007 tail");
    let msg = KrxMsg::new_from_payload(20240610, &payload, None, None).unwrap();
    assert_eq!(msg.trcode, "B606F");
    assert_eq!(msg.distidx, Some(42));
    assert_eq!(msg.instcode, Some("     KR4165N".to_string()));
}

#[test]
fn date_is_split_into_year_month_and_day() {
    let msg = KrxMsg::new_from_payload(20240610, b"", None, None).unwrap();
    assert_eq!(msg.date_parts(), (2024, 6, 10));
    let msg = KrxMsg::new_from_payload(-20240610, b"", None, None).unwrap();
    assert_eq!(msg.date_parts(), (-2024, -6, -10));
    let msg = KrxMsg::new_from_payload(0, b"", None, None).unwrap();
    assert_eq!(msg.date_parts(), (0, 0, 0));
    let msg = KrxMsg::new_from_payload(i32::MAX, b"", None, None).unwrap();
    assert_eq!(msg.date_parts(), (214748, 36, 47));
}

#[test]
fn payload_is_shown_without_its_last_byte() {
    let msg = KrxMsg::new_from_payload(20240610, b"A301K\xc7\xd1\xb1\xdb!\xff", None, None).unwrap();
    assert_eq!(msg.payload_text(), "A301K\u{d55c}\u{ae00}!");
    let msg = KrxMsg::new_from_payload(20240610, b"A", None, None).unwrap();
    assert_eq!(msg.payload_text(), "");
    let msg = KrxMsg::new_from_payload(20240610, b"", None, None).unwrap();
    assert_eq!(msg.payload_text(), "");
}

#[test]
fn unknown_code_decodes_to_the_code_alone() {
    let msg = KrxMsg::new_from_payload(20240610, b"XXXXX", None, None).unwrap();
    assert_eq!(msg.trcode, "XXXXX");
    assert_eq!(msg.instcode, None);
    assert_eq!(msg.distidx, None);
    assert_eq!(msg.payload, b"XXXXX".to_vec());
}

#[test]
fn short_payloads_decode_to_an_empty_code() {
    for payload in [&b""[..], b"B", b"B6", b"B606"] {
        let msg = KrxMsg::new_from_payload(20240610, payload, None, Some(1)).unwrap();
        assert_eq!(msg.trcode, "");
        assert_eq!(msg.instcode, None);
        assert_eq!(msg.distidx, None);
        assert_eq!(msg.payload, payload.to_vec());
        assert_eq!(msg.timestamp, Some(1));
    }
}

#[test]
fn code_that_is_no_text_is_left_empty() {
    let payload = message(b"B6\xff6F", 12, b"KR4165N30007");
    let msg = KrxMsg::new_from_payload(20240610, &payload, None, None).unwrap();
    assert_eq!(msg.trcode, "");
    assert_eq!(msg.instcode, Some("KR4165N30007".to_string()));
}

#[test]
fn truncated_fields_are_left_out() {
    let payload = b"B606F00000042GGGGKR4165N3000";
    assert_eq!(payload.len(), 28);
    let msg = KrxMsg::new_from_payload(20240610, payload, None, None).unwrap();
    assert_eq!(msg.instcode, None);
    assert_eq!(msg.distidx, Some(42));
    let msg = KrxMsg::new_from_payload(20240610, &payload[..12], None, None).unwrap();
    assert_eq!(msg.trcode, "B606F");
    assert_eq!(msg.distidx, None);
    let msg = KrxMsg::new_from_payload(20240610, b"B606F00000042GGGGKR4165N30007", None, None)
        .unwrap();
    assert_eq!(msg.instcode, Some("KR4165N30007".to_string()));
}

#[test]
fn instrument_code_that_is_no_text_is_left_out() {
    let payload = message(b"A301K", 12, b"KR4165\xffN3000 tail");
    let msg = KrxMsg::new_from_payload(20240610, &payload, None, None).unwrap();
    assert_eq!(msg.trcode, "A301K");
    assert_eq!(msg.instcode, None);
    let payload = message(b"A301K", 12, "KR41\u{c6d0}N3000".as_bytes());
    let msg = KrxMsg::new_from_payload(20240610, &payload, None, None).unwrap();
    assert_eq!(msg.instcode, Some("KR41\u{c6d0}N3000".to_string()));
}

#[test]
fn text_is_strict_utf8() {
    let decode = |code: &[u8]| {
        let mut payload = b"A301K".to_vec();
        payload.extend_from_slice(&[b' '; 12]);
        payload.extend_from_slice(code);
        assert_eq!(payload.len(), 29);
        KrxMsg::new_from_payload(20240610, &payload, None, None).unwrap().instcode
    };
    assert_eq!(decode("\u{10348}\u{20ac}\u{e9}abc".as_bytes()), Some("\u{10348}\u{20ac}\u{e9}abc".to_string()));
    assert_eq!(decode(b"\xef\xbb\xbfKR4165N30"), Some("\u{feff}KR4165N30".to_string()));
    assert_eq!(decode(b"\x00\x7fKR4165N300"), Some("\u{0}\u{7f}KR4165N300".to_string()));
    // An encoding longer than needed, a surrogate, a value beyond the last
    // scalar, a lone continuation byte, and a character cut short.
    assert_eq!(decode(b"\xc0\x80KR4165N300"), None);
    assert_eq!(decode(b"\xe0\x80\x80R4165N300"), None);
    assert_eq!(decode(b"\xed\xa0\x80R4165N300"), None);
    assert_eq!(decode(b"\xf4\x90\x80\x804165N300"), None);
    assert_eq!(decode(b"\x80KR4165N3000"), None);
    assert_eq!(decode(b"KR4165N3000\xe2"), None);
    assert_eq!(decode(b"KR4165N300\xe2\x82"), None);
}

#[test]
fn open_interest_has_its_index_behind_the_instrument_code() {
    let payload = b"H201FKR4165N30007000321 tail";
    let msg = KrxMsg::new_from_payload(20240927, payload, None, None).unwrap();
    assert_eq!(msg.trcode, "H201F");
    assert_eq!(msg.instcode, Some("KR4165N30007".to_string()));
    assert_eq!(msg.distidx, Some(321));
}

#[test]
fn excluded_quote_codes_have_no_instrument_code_and_no_index() {
    let payload = message(b"B6054", 12, b"KR4165N30007 tail");
    let msg = KrxMsg::new_from_payload(20240610, &payload, None, None).unwrap();
    assert_eq!(msg.trcode, "B6054");
    assert_eq!(msg.instcode, None);
    assert_eq!(msg.distidx, None);
}

#[test]
fn decimal_text_is_an_optional_sign_and_digits() {
    assert_eq!(parse_decimal(b"00001234"), Some(1234));
    assert_eq!(parse_decimal(b"0"), Some(0));
    assert_eq!(parse_decimal(b"+17"), Some(17));
    assert_eq!(parse_decimal(b"-17"), Some(-17));
    assert_eq!(parse_decimal(b"-0"), Some(0));
    assert_eq!(parse_decimal(b"2147483647"), Some(i32::MAX));
    assert_eq!(parse_decimal(b"-2147483648"), Some(i32::MIN));
    assert_eq!(parse_decimal(b"0000000002147483647"), Some(i32::MAX));
}

#[test]
fn other_text_is_no_number() {
    assert_eq!(parse_decimal(b""), None);
    assert_eq!(parse_decimal(b"+"), None);
    assert_eq!(parse_decimal(b"-"), None);
    assert_eq!(parse_decimal(b"+-1"), None);
    assert_eq!(parse_decimal(b"1+"), None);
    assert_eq!(parse_decimal(b" 12"), None);
    assert_eq!(parse_decimal(b"12 "), None);
    assert_eq!(parse_decimal(b"1_000"), None);
    assert_eq!(parse_decimal(b"12a"), None);
    assert_eq!(parse_decimal(b"0x12"), None);
    assert_eq!(parse_decimal(b"1.5"), None);
    assert_eq!(parse_decimal(b"2147483648"), None);
    assert_eq!(parse_decimal(b"-2147483649"), None);
    assert_eq!(parse_decimal(b"99999999999999999999"), None);
    assert_eq!(parse_decimal(b"12\xff"), None);
    assert_eq!(parse_decimal(b"\xff"), None);
    assert_eq!(parse_decimal("１２".as_bytes()), None);
    assert_eq!(parse_decimal("12\u{fffd}".as_bytes()), None);
}
