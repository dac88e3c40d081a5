use stardust::oracle::{push_str_bytes, speak, speak_hex, speak_u64};

#[test]
fn speak_writes_message_bytes() {
    assert_eq!(speak("[*] Booting\n"), b"[*] Booting\n".to_vec());
    assert_eq!(speak(""), Vec::<u8>::new());
}

#[test]
fn push_str_bytes_appends() {
    let mut out = b"ab".to_vec();
    push_str_bytes(&mut out, "cd");
    assert_eq!(out, b"abcd".to_vec());
}

#[test]
fn speak_u64_decimal() {
    assert_eq!(speak_u64(0), b"0".to_vec());
    assert_eq!(speak_u64(7), b"7".to_vec());
    assert_eq!(speak_u64(42), b"42".to_vec());
    assert_eq!(speak_u64(1000), b"1000".to_vec());
    assert_eq!(speak_u64(u64::MAX), b"18446744073709551615".to_vec());
}

#[test]
fn speak_hex_upper_case() {
    assert_eq!(speak_hex(0), b"0".to_vec());
    assert_eq!(speak_hex(10), b"A".to_vec());
    assert_eq!(speak_hex(0xDEAD_BEEF), b"DEADBEEF".to_vec());
    assert_eq!(speak_hex(0x1000), b"1000".to_vec());
    assert_eq!(speak_hex(u64::MAX), b"FFFFFFFFFFFFFFFF".to_vec());
}

#[test]
fn decimal_output_reads_back() {
    for n in [0u64, 9, 10, 99, 12345, 9876543210, u64::MAX] {
        let digits = speak_u64(n);
        assert!(digits.iter().all(|b| (b'0'..=b'9').contains(b)));
        let text = String::from_utf8(digits).unwrap();
        assert_eq!(text.parse::<u64>().unwrap(), n);
    }
}

#[test]
fn hex_output_reads_back() {
    for n in [0u64, 15, 16, 255, 0xCAFE, 0xFFFF_FFFF_7FE0_0000, u64::MAX] {
        let text = String::from_utf8(speak_hex(n)).unwrap();
        assert_eq!(u64::from_str_radix(&text, 16).unwrap(), n);
    }
}
