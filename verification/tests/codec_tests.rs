use rental_store::codec::decode_rental;
use rental_store::codec::encode_rental;
use rental_store::rental::Rental;

fn sample(updated_at: Option<u64>) -> Rental {
    Rental {
        id: 7,
        motorcycle_brand: "Honda".to_string(),
        daily_rate: 50,
        rental_date: "2024-01-01".to_string(),
        renter_name: "Alice".to_string(),
        rental_days: 3,
        updated_at,
    }
}

#[test]
fn round_trip_without_timestamp() {
    let r = sample(None);
    let bytes = encode_rental(&r);
    assert_eq!(decode_rental(&bytes), Some(r));
}

#[test]
fn round_trip_with_timestamp() {
    let r = sample(Some(1_700_000_000_000_000_000));
    let bytes = encode_rental(&r);
    assert_eq!(decode_rental(&bytes), Some(r));
}

#[test]
fn round_trip_with_non_ascii_text() {
    let r = Rental {
        id: 0,
        motorcycle_brand: "Hond\u{00e9} \u{6f4f}\u{6258}".to_string(),
        daily_rate: u64::MAX,
        rental_date: "\u{2603}".to_string(),
        renter_name: "\u{1f3cd}".to_string(),
        rental_days: 1,
        updated_at: Some(u64::MAX),
    };
    let bytes = encode_rental(&r);
    assert_eq!(decode_rental(&bytes), Some(r));
}

#[test]
fn encoding_is_the_documented_layout() {
    let r = Rental {
        id: 1,
        motorcycle_brand: "A".to_string(),
        daily_rate: 2,
        rental_date: "B".to_string(),
        renter_name: "C".to_string(),
        rental_days: 3,
        updated_at: None,
    };
    let mut expected: Vec<u8> = Vec::new();
    expected.extend_from_slice(&1u64.to_le_bytes());
    expected.extend_from_slice(&1u64.to_le_bytes());
    expected.push(b'A');
    expected.extend_from_slice(&2u64.to_le_bytes());
    expected.extend_from_slice(&1u64.to_le_bytes());
    expected.push(b'B');
    expected.extend_from_slice(&1u64.to_le_bytes());
    expected.push(b'C');
    expected.extend_from_slice(&3u64.to_le_bytes());
    expected.push(0u8);
    assert_eq!(encode_rental(&r), expected);
}

#[test]
fn truncated_bytes_do_not_decode() {
    let bytes = encode_rental(&sample(None));
    let truncated: Vec<u8> = bytes[..bytes.len() - 1].to_vec();
    assert_eq!(decode_rental(&truncated), None);
    assert_eq!(decode_rental(&Vec::new()), None);
}

#[test]
fn trailing_garbage_does_not_decode() {
    let mut bytes = encode_rental(&sample(None));
    bytes.push(0u8);
    assert_eq!(decode_rental(&bytes), None);
}

#[test]
fn invalid_utf8_text_does_not_decode() {
    let mut bytes: Vec<u8> = Vec::new();
    bytes.extend_from_slice(&1u64.to_le_bytes());
    // One text byte announced, but it is not valid UTF-8.
    bytes.extend_from_slice(&1u64.to_le_bytes());
    bytes.push(0xFF);
    assert_eq!(decode_rental(&bytes), None);
}

#[test]
fn unknown_timestamp_tag_does_not_decode() {
    let mut bytes = encode_rental(&sample(None));
    let last = bytes.len() - 1;
    bytes[last] = 2u8;
    assert_eq!(decode_rental(&bytes), None);
}
