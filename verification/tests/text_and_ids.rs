use libmarathon::export_messages::{cocoa_timestamp_to_datetime, cocoa_unix_time, extract_text_fallback, COCOA_EPOCH_OFFSET};
use libmarathon::ids::{u128_from_be_bytes, u128_to_be_bytes};
use libmarathon::utils::RkyvUuid;

#[test]
fn extract_text_picks_longest_plain_run() {
    let mut body: Vec<u8> = Vec::new();
    body.extend_from_slice(b"NSAttributedString");
    body.push(0);
    body.extend_from_slice(b"streamtyped");
    body.push(1);
    body.extend_from_slice(b"+Hello there");
    body.push(2);
    body.extend_from_slice(b"hi");
    assert_eq!(extract_text_fallback(&body), "Hello there");
}

#[test]
fn extract_text_keeps_final_run_and_trims() {
    assert_eq!(extract_text_fallback(b"ab\x00  final words  "), "final words");
    assert_eq!(extract_text_fallback(b""), "");
    assert_eq!(extract_text_fallback(b"+1"), "+1");
    assert_eq!(extract_text_fallback(b"__kIMMessagePartAttributeName\x00ok"), "ok");
}

#[test]
fn uuid_bytes_roundtrip() {
    let id = uuid::Uuid::new_v4();
    let r = RkyvUuid::new(id.as_u128());
    assert_eq!(r.0, *id.as_bytes());
    assert_eq!(r.as_uuid(), id.as_u128());
    assert_eq!(r.into_uuid(), id.as_u128());
    assert_eq!(u128_from_be_bytes(&u128_to_be_bytes(0x0102)), 0x0102);
    assert_eq!(u128_to_be_bytes(1)[15], 1);
}

#[test]
fn cocoa_timestamps_shift_to_unix_time() {
    assert_eq!(COCOA_EPOCH_OFFSET, 978307200);
    assert_eq!(cocoa_unix_time(1_500_000_000), (978307201, 500_000_000));
    assert_eq!(cocoa_unix_time(-1_500_000_000), (978307199, (-500_000_000i64) as u32));
    assert_eq!(cocoa_timestamp_to_datetime(0), "");
    assert_eq!(cocoa_timestamp_to_datetime(1_000_000_000), "2001-01-01T00:00:01+00:00");
    assert_eq!(cocoa_timestamp_to_datetime(-1_000_000_000), "2000-12-31T23:59:59+00:00");
    // a negative remainder wraps to an invalid nanosecond count
    assert_eq!(cocoa_timestamp_to_datetime(-1_500_000_000), "");
}
