use hascan::setting::{
    decode_settings, ActiveItem, BalanceRankingList, ChainActiveList, RankBalance, ScanSettings,
    SettingsError,
};

fn section(secnum: u32) -> ActiveItem {
    ActiveItem {
        secnum,
        newadr: 2,
        txs: 3,
        trszhu: 4,
        trssat: 5,
        trsdia: 6,
        mvzhu: 7,
        mvsat: 8,
        mvdia: 9,
    }
}

#[test]
fn settings_keep_the_legacy_field_order() {
    let settings = ScanSettings {
        height: 0x0102030405,
        auto_inc_address_id: 0x060708090a,
        chain_active: ChainActiveList { count: 1, lists: vec![section(1)] },
        ..Default::default()
    };
    let encoded = settings.encode();
    assert_eq!(&encoded[..10], &[1, 2, 3, 4, 5, 6, 7, 8, 9, 10]);
    let (decoded, used) = ScanSettings::decode(&encoded).unwrap();
    assert_eq!(used, encoded.len());
    assert_eq!(decoded, settings);
    assert_eq!(decoded.encode(), encoded);
}

#[test]
fn settings_decoder_rejects_trailing_data() {
    let mut data = ScanSettings::default().encode();
    data.push(0);
    assert!(decode_settings(&data, "test settings").is_err());
}

#[test]
fn default_settings_encode_to_41_zero_bytes() {
    let data = ScanSettings::default().encode();
    assert_eq!(data.len(), 41);
    assert!(data.iter().all(|b| *b == 0));
}

#[test]
fn section_encoding_is_big_endian_and_60_bytes() {
    let settings = ScanSettings {
        chain_active: ChainActiveList { count: 1, lists: vec![section(0x01020304)] },
        ..Default::default()
    };
    let data = settings.encode();
    assert_eq!(data.len(), 41 + 60);
    assert_eq!(data[21], 1);
    assert_eq!(&data[22..26], &[1, 2, 3, 4]);
    assert_eq!(&data[26..30], &[0, 0, 0, 2]);
    // mvzhu is 16 bytes, mvsat 12, mvdia 8
    assert_eq!(data[22 + 24 + 15], 7);
    assert_eq!(data[22 + 40 + 11], 8);
    assert_eq!(data[22 + 52 + 7], 9);
}

#[test]
fn rankings_roundtrip_with_their_order() {
    let entry = |b: u8, amount: u64| RankBalance { addr: vec![b; 21], amount };
    let settings = ScanSettings {
        height: 77,
        rank_zhu: BalanceRankingList { count: 2, lists: vec![entry(1, 500), entry(2, 300)] },
        rank_dia: BalanceRankingList { count: 1, lists: vec![entry(3, 4)] },
        ..Default::default()
    };
    let data = settings.encode();
    assert_eq!(data.len(), 41 + 3 * 29);
    let back = decode_settings(&data, "db").unwrap();
    assert_eq!(back, settings);
    assert_eq!(back.rank_zhu.as_list().len(), 2);
    assert_eq!(back.chain_active.as_list().len(), 0);
}

#[test]
fn decoder_reports_truncated_data() {
    let data = ScanSettings::default().encode();
    let err = decode_settings(&data[..40], "database settings").unwrap_err();
    assert!(matches!(err, SettingsError::Decode { .. }));
    assert_eq!(err.message(), "decode hascan database settings failed: unexpected end of data");
    assert!(ScanSettings::decode(&data[..20]).is_err());
}

#[test]
fn decoder_reports_the_number_of_trailing_bytes() {
    let mut data = ScanSettings::default().encode();
    data.extend_from_slice(&[9, 9]);
    let err = decode_settings(&data, "settings x").unwrap_err();
    assert_eq!(err.message(), "decode hascan settings x failed: 2 trailing bytes");
    let (_, used) = ScanSettings::decode(&data).unwrap();
    assert_eq!(used, 41);
}

#[test]
fn list_count_in_the_encoding_is_the_list_length() {
    let settings = ScanSettings {
        chain_active: ChainActiveList { count: 9, lists: vec![section(1)] },
        ..Default::default()
    };
    let data = settings.encode();
    assert_eq!(data[21], 1);
    let back = decode_settings(&data, "db").unwrap();
    assert_eq!(back.chain_active.count, 1);
}

#[test]
fn encodable_means_the_integers_fit() {
    assert!(ScanSettings::default().is_encodable());
    let tall = ScanSettings { height: 1 << 40, ..Default::default() };
    assert!(!tall.is_encodable());
    let mut big = ScanSettings::default();
    big.chain_active = ChainActiveList { count: 1, lists: vec![ActiveItem { mvsat: 1 << 96, ..section(1) }] };
    assert!(!big.is_encodable());
}
