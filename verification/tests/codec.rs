use ubc125::codec::{
    bank_of_channel, decode_bank_mask, decode_channel, encode_bank_mask, encode_channel_delete,
    encode_channel_query, encode_channel_write, encode_set_squelch, encode_set_volume,
    format_channel_freq, format_scan_freq, normalize_frequency_input,
};
use ubc125::strutil::{parse_u32, trim, u32_to_string};

#[test]
fn test_normalize_frequency_with_dot() {
    assert_eq!(normalize_frequency_input("123.45"), "01234500");
    assert_eq!(normalize_frequency_input("88.1"), "00881000");
    assert_eq!(normalize_frequency_input("123.0"), "01230000");
    assert_eq!(normalize_frequency_input("0.1234"), "00001234");
    assert_eq!(normalize_frequency_input("12345.678901"), "12346789");
}

#[test]
fn test_normalize_frequency_raw() {
    assert_eq!(normalize_frequency_input("0123450"), "00123450");
    assert_eq!(normalize_frequency_input("01239750"), "01239750");
    assert_eq!(normalize_frequency_input("123456789"), "12345678");
}

#[test]
fn test_normalize_frequency_mhz_only() {
    assert_eq!(normalize_frequency_input("118"), "01180000");
    assert_eq!(normalize_frequency_input("8"), "00080000");
    assert_eq!(normalize_frequency_input(""), "");
}

#[test]
fn test_format_channel_freq() {
    assert_eq!(format_channel_freq("01239750"), "123.975");
    assert_eq!(format_channel_freq("00881000"), "88.1");
    assert_eq!(format_channel_freq("01230000"), "123.0");
    assert_eq!(format_channel_freq("00001234"), "0.1234");
    assert_eq!(format_channel_freq("00000000"), "");
    // Not an 8-digit code: passed through unchanged.
    assert_eq!(format_channel_freq("0123975"), "0123975");
    assert_eq!(format_channel_freq("1234567X"), "1234567X");
}

#[test]
fn test_format_scan_freq_keeps_trailing_zeros() {
    assert_eq!(format_scan_freq("01239750"), "123.9750");
    assert_eq!(format_scan_freq("00881000"), "88.1000");
    assert_eq!(format_scan_freq("0088100"), "0088100");
}

#[test]
fn test_decode_channel() {
    let ch = decode_channel("CIN,52,BHX RADAR,01239750,AM,0,0,0,0").unwrap();
    assert_eq!(ch.index, 52);
    assert_eq!(ch.name, "BHX RADAR");
    assert_eq!(ch.frequency, "123.975");
    assert_eq!(ch.modulation, "AM");
}

#[test]
fn test_decode_channel_sentinel_frequency() {
    let ch = decode_channel("CIN,1,EMPTY,00000000,FM").unwrap();
    assert_eq!(ch.frequency, "");
}

#[test]
fn test_decode_channel_rejects() {
    // Too few fields.
    assert!(decode_channel("CIN,1").is_none());
    // Wrong mnemonic.
    assert!(decode_channel("GLG,1,A,01239750,AM").is_none());
    // Index out of range or unparseable.
    assert!(decode_channel("CIN,0,A,01239750,AM").is_none());
    assert!(decode_channel("CIN,501,A,01239750,AM").is_none());
    assert!(decode_channel("CIN,x,A,01239750,AM").is_none());
}

#[test]
fn test_bank_mask_decode() {
    let m = decode_bank_mask("SCG,0101010101").unwrap();
    assert_eq!(m, vec![true, false, true, false, true, false, true, false, true, false]);
    assert!(decode_bank_mask("SCG,010101010").is_none());
    assert!(decode_bank_mask("XXX,0101010101").is_none());
    assert!(decode_bank_mask("SCG").is_none());
}

#[test]
fn test_bank_mask_encode_decode_round_trip() {
    let mask = vec![true, true, false, true, false, false, true, true, false, true];
    let encoded = encode_bank_mask(&mask);
    assert_eq!(encoded, "SCG,0010110010");
    assert_eq!(decode_bank_mask(&encoded).unwrap(), mask);
}

#[test]
fn test_bank_of_channel_matches_bank_ranges() {
    assert_eq!(bank_of_channel(52), 2);
    assert_eq!(bank_of_channel(1), 1);
    assert_eq!(bank_of_channel(500), 10);
    for i in 1u32..=500 {
        let b = bank_of_channel(i);
        let lo = (b - 1) * 50 + 1;
        let hi = b * 50;
        assert!(lo <= i && i <= hi);
    }
}

#[test]
fn test_encode_channel_commands() {
    assert_eq!(encode_channel_query(52), "CIN,52");
    assert_eq!(encode_channel_delete(7), "DCH,7");
    assert_eq!(
        encode_channel_write(52, "BHX RADAR", "01239750", "AM"),
        "CIN,52,BHX RADAR,01239750,AM,0,0,0,0"
    );
}

#[test]
fn test_encode_set_volume() {
    assert_eq!(encode_set_volume(5).unwrap(), "VOL,5");
    assert_eq!(encode_set_volume(15).unwrap(), "VOL,15");
    let err = encode_set_volume(16).unwrap_err();
    assert_eq!(err.message(), "Volume level must be between 0 and 15");
}

#[test]
fn test_encode_set_squelch() {
    assert_eq!(encode_set_squelch(0).unwrap(), "SQL,0");
    let err = encode_set_squelch(200).unwrap_err();
    assert_eq!(err.message(), "Squelch level must be between 0 and 15");
}

#[test]
fn test_parse_u32() {
    assert_eq!(parse_u32("52"), Some(52));
    assert_eq!(parse_u32("0"), Some(0));
    assert_eq!(parse_u32("4294967295"), Some(u32::MAX));
    assert_eq!(parse_u32("4294967296"), None);
    assert_eq!(parse_u32(""), None);
    assert_eq!(parse_u32("12a"), None);
    assert_eq!(parse_u32(" 5"), None);
}

#[test]
fn test_u32_to_string() {
    assert_eq!(u32_to_string(0), "0");
    assert_eq!(u32_to_string(2), "2");
    assert_eq!(u32_to_string(500), "500");
    assert_eq!(u32_to_string(4294967295), "4294967295");
}

#[test]
fn test_trim() {
    assert_eq!(trim("  BHX RADAR \r\n"), "BHX RADAR");
    assert_eq!(trim("1"), "1");
    assert_eq!(trim("   "), "");
    assert_eq!(trim(""), "");
}
