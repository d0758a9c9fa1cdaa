use cardano_lightning_client::digits::{read_number, read_value};

fn bytes(alphabet: &str, text: &str) -> Option<Vec<u8>> {
    read_number(alphabet, &text.chars().collect())
}

#[test]
fn numbers_become_bytes() {
    assert_eq!(bytes("0123456789", ""), Some(vec![]));
    assert_eq!(bytes("0123456789", "000"), Some(vec![]));
    assert_eq!(bytes("0123456789", "255"), Some(vec![255]));
    assert_eq!(bytes("0123456789", "256"), Some(vec![1, 0]));
    assert_eq!(bytes("0123456789", "0065536"), Some(vec![1, 0, 0]));
    assert_eq!(bytes("0123456789", "18446744073709551615"), Some(vec![255; 8]));
    assert_eq!(bytes("0123456789abcdef", "82d818"), Some(vec![0x82, 0xd8, 0x18]));
    assert_eq!(bytes("0123456789", "12x4"), None);
}

#[test]
fn bytes_become_numbers() {
    assert_eq!(read_value(&[]), 0);
    assert_eq!(read_value(&[0, 1, 2]), 258);
    assert_eq!(read_value(&[255; 8]), u64::MAX);
}
