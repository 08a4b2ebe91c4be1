use skb_traits::{
    build_set, decode_query_response, decode_records, encode_records, validate_set_buffer, Error,
    PktTrait, TcpSynTraits, TcpSynTraitsSet, TraitValue, EIO, RECORD_SIZE,
};

fn response(records: &[PktTrait]) -> Vec<u8> {
    encode_records(records)
}

#[test]
fn can_construct_pkt_trait() {
    let _t = PktTrait {
        key: 42,
        len: 2,
        val: 0xcfcf,
        ..Default::default()
    };
}

#[test]
fn record_layout_is_bit_exact() {
    let t = PktTrait {
        _zpad_1: 0,
        key: 42,
        len: 8,
        io_err: 1,
        _zpad_2: 0,
        val: 0x0102_0304_0506_0708,
    };
    let b = encode_records(&[t]);
    assert_eq!(b.len(), RECORD_SIZE);
    assert_eq!(&b[0..4], &[0, 42, 8, 1]);
    assert_eq!(&b[4..8], &[0, 0, 0, 0]);
    assert_eq!(&b[8..16], &0x0102_0304_0506_0708u64.to_ne_bytes());
    assert_eq!(decode_records(&b, 1), vec![t]);
}

#[test]
fn records_from_keys_and_values() {
    let a: PktTrait = 42.into();
    assert_eq!(a, PktTrait { key: 42, ..Default::default() });
    let b: PktTrait = (42, 0xcfcf_u16).into();
    assert_eq!((b.key, b.len, b.val), (42, 2, 0xcfcf));
    let c: PktTrait = (42, 0xaaaa_bbbb_u32).into();
    assert_eq!((c.key, c.len, c.val), (42, 4, 0xaaaa_bbbb));
    let d: PktTrait = (42, 0xaaaa_bbbb_cccc_dddd_u64).into();
    assert_eq!((d.key, d.len, d.val), (42, 8, 0xaaaa_bbbb_cccc_dddd));
    assert_eq!(PktTrait::with_value(42, TraitValue::U32(0xaaaa_bbbb)), c);
    assert_eq!(b.value(), Some(TraitValue::U16(0xcfcf)));
    assert_eq!(d.value(), Some(TraitValue::U64(0xaaaa_bbbb_cccc_dddd)));
    assert_eq!(a.value(), None);
}

#[test]
fn query_buffer_holds_one_zeroed_record_per_key() {
    let q = TcpSynTraits(&[0xa, 0xb, 0xa]).build_query();
    assert_eq!(q.len(), 3 * RECORD_SIZE);
    assert_eq!(
        decode_records(&q, 3),
        vec![PktTrait::from(0xa), PktTrait::from(0xb), PktTrait::from(0xa)]
    );
    assert!(TcpSynTraits(&[]).build_query().is_empty());
}

#[test]
fn empty_response_gives_no_record() {
    assert_eq!(decode_query_response(&[], 0), Ok(vec![]));
    assert_eq!(decode_query_response(&[], 3), Ok(vec![]));
    assert_eq!(decode_query_response(&[], 64), Ok(vec![]));
}

#[test]
fn response_of_wrong_size_is_refused() {
    let full = response(&[PktTrait::from(1), PktTrait::from(2)]);
    assert_eq!(decode_query_response(&full[..31], 2), Err(Error::MessageSizeMismatch));
    let mut long = full.clone();
    long.push(0);
    assert_eq!(decode_query_response(&long, 2), Err(Error::MessageSizeMismatch));
    assert_eq!(decode_query_response(&full, 1), Err(Error::MessageSizeMismatch));
    assert_eq!(decode_query_response(&full, 3), Err(Error::MessageSizeMismatch));
}

#[test]
fn can_read_two_traits_in_query_order() {
    let answer = [(16, 0x1616_u16).into(), (32, 0x3232_3232_u32).into()];
    let raw = response(&answer);
    let got = decode_query_response(&raw, 2).unwrap();
    assert_eq!(got, vec![(16, 0x1616_u16).into(), (32, 0x3232_3232_u32).into()]);
    assert_eq!((got[0].key, got[0].len, got[0].val), (16, 2, 0x1616));
    assert_eq!((got[1].key, got[1].len, got[1].val), (32, 4, 0x3232_3232));
}

#[test]
fn absent_key_gives_record_without_value() {
    let keys = [0xa, 0xb, 0xc, 0xd];
    let q = TcpSynTraits(&keys);
    let answer = [
        (0xa, 0xaaaa_u16).into(),
        (0xb, 0xbbbb_bbbb_u32).into(),
        (0xc, 0xcccc_cccc_cccc_cccc_u64).into(),
        PktTrait::from(0xd),
    ];
    let buf = response(&answer);
    let got = q.decode_response(&buf, Ok(buf.len())).unwrap();
    assert_eq!(got.len(), 4);
    assert_eq!(got[3].len, 0);
    assert_eq!(got, answer.to_vec());
}

#[test]
fn transport_outcomes_of_a_query() {
    let q = TcpSynTraits(&[42]);
    let buf = response(&[(42, 0xcf_u16).into()]);
    assert_eq!(q.decode_response(&buf, Ok(0)), Ok(vec![]));
    assert_eq!(q.decode_response(&buf, Err(EIO)), Ok(vec![]));
    assert_eq!(q.decode_response(&buf, Err(95)), Err(Error::Transport(95)));
    assert_eq!(q.decode_response(&buf, Ok(8)), Err(Error::MessageSizeMismatch));
    assert_eq!(q.decode_response(&buf, Ok(17)), Err(Error::MessageSizeMismatch));
    assert_eq!(q.decode_response(&buf, Ok(16)), Ok(vec![(42, 0xcf_u16).into()]));
}

#[test]
fn setting_empty_traits_yields_error() {
    assert_eq!(
        TcpSynTraitsSet::<Vec<PktTrait>>::default().payload(&[]),
        Err(Error::EmptyBatch)
    );
    assert_eq!(build_set(&[]), Err(Error::EmptyBatch));
}

#[test]
fn einval_on_set_for_short_buffer() {
    const GOOD_SIZE: usize = RECORD_SIZE;
    for n in [GOOD_SIZE - 1, GOOD_SIZE + 1, 2 * GOOD_SIZE - 4, 2 * GOOD_SIZE + 4] {
        assert!(matches!(
            validate_set_buffer(&vec![0u8; n]),
            Err(Error::InvalidSize(_))
        ));
    }
    assert_eq!(validate_set_buffer(&[]), Err(Error::EmptyBatch));
    assert_eq!(validate_set_buffer(&[0u8; GOOD_SIZE]), Ok(1));
    assert_eq!(validate_set_buffer(&[0u8; 3 * GOOD_SIZE]), Ok(3));
}

#[test]
fn can_set_one_trait() {
    let traits: [PktTrait; 1] = [(42, 0xcfcf_u16).into()];
    let b = TcpSynTraitsSet::<[PktTrait; 1]>::default().payload(&traits).unwrap();
    assert_eq!(b.len(), RECORD_SIZE);
    assert_eq!(validate_set_buffer(&b), Ok(1));
}

#[test]
fn can_set_two_traits() {
    let traits: [PktTrait; 2] = [(0xa, 0xaaaa_u16).into(), (0xb, 0xbbbb_bbbb_u32).into()];
    let b = TcpSynTraitsSet::<[PktTrait; 2]>::default().payload(&traits).unwrap();
    assert_eq!(b.len(), 2 * RECORD_SIZE);
    assert_eq!(decode_records(&b, 2), traits.to_vec());
}

#[test]
fn can_get_back_set_trait() {
    let b = build_set(&[(42, TraitValue::U16(0xcfcf))]).unwrap();
    let got = TcpSynTraits(&[42]).decode_response(&b, Ok(b.len())).unwrap();
    assert_eq!(got, vec![(42, 0xcfcf_u16).into()]);
    assert_eq!(got[0].value(), Some(TraitValue::U16(0xcfcf)));
}

#[test]
fn set_buffer_keeps_order_and_duplicates() {
    let batch = [
        (7, TraitValue::U64(1)),
        (7, TraitValue::U64(1)),
        (3, TraitValue::U32(0x3333_3333)),
    ];
    let b = build_set(&batch).unwrap();
    let got = decode_query_response(&b, 3).unwrap();
    let pairs: Vec<(u8, Option<TraitValue>)> = got.iter().map(|t| (t.key, t.value())).collect();
    assert_eq!(
        pairs,
        vec![
            (7, Some(TraitValue::U64(1))),
            (7, Some(TraitValue::U64(1))),
            (3, Some(TraitValue::U32(0x3333_3333))),
        ]
    );
}

#[test]
fn zero_length_trait_ignored_on_set() {
    let traits: [PktTrait; 1] = [42.into()];
    let b = TcpSynTraitsSet::<[PktTrait; 1]>::default().payload(&traits).unwrap();
    assert_eq!(decode_records(&b, 1), vec![PktTrait::from(42)]);
}
