use skb_traits::{Error, PktTraits, TraitValue, HEADER_SIZE, MAX_KEY};

fn blob(high: u64, low: u64, values: &[u8]) -> Vec<u8> {
    let mut b = Vec::new();
    b.extend_from_slice(&high.to_ne_bytes());
    b.extend_from_slice(&low.to_ne_bytes());
    b.extend_from_slice(values);
    b
}

fn single_key_blob(key: u8, width: usize, value: u64) -> Vec<u8> {
    let bit = 1u64 << key;
    let (high, low) = match width {
        2 => (0, bit),
        4 => (bit, 0),
        _ => (bit, bit),
    };
    let bytes: Vec<u8> = match width {
        2 => (value as u16).to_ne_bytes().to_vec(),
        4 => (value as u32).to_ne_bytes().to_vec(),
        _ => value.to_ne_bytes().to_vec(),
    };
    blob(high, low, &bytes)
}

#[test]
fn single_key_round_trip_for_every_key_and_width() {
    for key in 0..=MAX_KEY {
        for width in [2usize, 4, 8] {
            let value = 0x0102_0304_0506_0708u64;
            let t = PktTraits::try_from(single_key_blob(key, width, value)).unwrap();
            let expected = match width {
                2 => TraitValue::U16(value as u16),
                4 => TraitValue::U32(value as u32),
                _ => TraitValue::U64(value),
            };
            assert_eq!(t.get(key), Ok(Some(expected)));
            for other in 0..=MAX_KEY {
                if other != key {
                    assert_eq!(t.get(other), Ok(None));
                }
            }
        }
    }
}

#[test]
fn can_read_one_trait_from_blob() {
    let t = PktTraits::parse(single_key_blob(42, 2, 0xcf)).unwrap();
    assert_eq!(Ok(Some(TraitValue::U16(0xcf))), t.get(42));
    assert_eq!(Ok(None), t.get(43));
}

#[test]
fn values_follow_in_ascending_key_order() {
    // key 3 narrow, key 5 medium, key 63 wide
    let high = (1u64 << 5) | (1u64 << 63);
    let low = (1u64 << 3) | (1u64 << 63);
    let mut values = Vec::new();
    values.extend_from_slice(&0x0303u16.to_ne_bytes());
    values.extend_from_slice(&0x0505_0505u32.to_ne_bytes());
    values.extend_from_slice(&0x6363_6363_6363_6363u64.to_ne_bytes());
    let t = PktTraits::parse(blob(high, low, &values)).unwrap();
    assert_eq!(t.get(3), Ok(Some(TraitValue::U16(0x0303))));
    assert_eq!(t.get(5), Ok(Some(TraitValue::U32(0x0505_0505))));
    assert_eq!(t.get(63), Ok(Some(TraitValue::U64(0x6363_6363_6363_6363))));
    assert_eq!(t.get(4), Ok(None));
}

#[test]
fn value_bytes_are_read_in_native_order() {
    let t = PktTraits::parse(single_key_blob(7, 4, 0x1122_3344)).unwrap();
    assert_eq!(t.get(7), Ok(Some(TraitValue::U32(0x1122_3344))));
    assert_ne!(t.get(7), Ok(Some(TraitValue::U32(0x4433_2211))));
}

#[test]
fn empty_header_is_a_valid_blob() {
    let t = PktTraits::parse(blob(0, 0, &[])).unwrap();
    for key in 0..=MAX_KEY {
        assert_eq!(t.get(key), Ok(None));
    }
}

#[test]
fn blob_shorter_than_header_is_refused() {
    let r = PktTraits::parse(vec![0u8; HEADER_SIZE - 1]);
    assert!(matches!(r, Err(Error::InvalidSize(_))));
    assert!(matches!(PktTraits::parse(Vec::new()), Err(Error::InvalidSize(_))));
}

#[test]
fn truncated_blob_is_refused() {
    let mut b = single_key_blob(42, 8, 0xdead_beef);
    assert!(PktTraits::parse(b.clone()).is_ok());
    b.pop();
    assert!(matches!(PktTraits::parse(b), Err(Error::InvalidSize(_))));
}

#[test]
fn blob_with_trailing_byte_is_refused() {
    let mut b = single_key_blob(1, 2, 0xabcd);
    b.push(0);
    assert!(matches!(PktTraits::parse(b), Err(Error::InvalidSize(_))));
    let mut e = blob(0, 0, &[]);
    e.push(0);
    assert!(matches!(PktTraits::parse(e), Err(Error::InvalidSize(_))));
}

#[test]
fn blob_length_is_header_plus_widths() {
    // every key wide: 16 + 64 * 8 bytes
    let all = blob(u64::MAX, u64::MAX, &[0u8; 512]);
    assert_eq!(all.len(), 528);
    assert!(PktTraits::parse(all).is_ok());
    assert!(matches!(
        PktTraits::parse(blob(u64::MAX, u64::MAX, &[0u8; 511])),
        Err(Error::InvalidSize(_))
    ));
}

#[test]
fn key_out_of_range_is_refused() {
    let t = PktTraits::parse(blob(0, 0, &[])).unwrap();
    assert!(matches!(t.get(64), Err(Error::KeyRange(_))));
    assert!(matches!(t.get(255), Err(Error::KeyRange(_))));
}

#[test]
fn try_from_validates_like_parse() {
    assert!(matches!(PktTraits::try_from(vec![0u8; 15]), Err(Error::InvalidSize(_))));
    assert!(PktTraits::try_from(vec![0u8; 16]).is_ok());
    let mut all = vec![0xffu8; 16];
    all.extend_from_slice(&[0u8; 512]);
    assert!(PktTraits::try_from(all).is_ok());
}

#[test]
fn errors_carry_their_text() {
    let e = PktTraits::parse(vec![0u8; 3]).err().unwrap();
    assert_eq!(e.message(), "Expected at least 16 bytes, got only 3");
    let e = PktTraits::parse(vec![0u8; 17]).err().unwrap();
    assert_eq!(e.message(), "Expected exactly 16 bytes, got 17");
    let t = PktTraits::parse(vec![0u8; 16]).unwrap();
    assert_eq!(t.get(64).err().unwrap().message(), "Key must be in 0..63 range, got 64");
    assert_eq!(Error::Transport(95).message(), "Socket option call failed with error code 95");
    assert!(!Error::EmptyBatch.message().is_empty());
}
