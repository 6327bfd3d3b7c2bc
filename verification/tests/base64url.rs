use push::base64url::{decode, encode};

#[test]
fn encode_writes_the_standard_vectors() {
    assert_eq!(encode(&b"".to_vec()), "");
    assert_eq!(encode(&b"f".to_vec()), "Zg");
    assert_eq!(encode(&b"fo".to_vec()), "Zm8");
    assert_eq!(encode(&b"foo".to_vec()), "Zm9v");
    assert_eq!(encode(&b"foob".to_vec()), "Zm9vYg");
    assert_eq!(encode(&b"fooba".to_vec()), "Zm9vYmE");
    assert_eq!(encode(&b"foobar".to_vec()), "Zm9vYmFy");
}

#[test]
fn encode_uses_the_url_safe_digits() {
    assert_eq!(encode(&vec![0xfb, 0xef, 0xbe]), "----");
    assert_eq!(encode(&vec![0xff, 0xff, 0xff]), "____");
    assert_eq!(encode(&vec![0xfb, 0xff]), "-_8");
    assert_eq!(encode(&vec![0x00]), "AA");
    assert_eq!(encode(&vec![0xff]), "_w");
}

#[test]
fn decode_reads_unpadded_text() {
    assert_eq!(decode(""), Some(vec![]));
    assert_eq!(decode("Zg"), Some(b"f".to_vec()));
    assert_eq!(decode("Zm8"), Some(b"fo".to_vec()));
    assert_eq!(decode("Zm9v"), Some(b"foo".to_vec()));
    assert_eq!(decode("Zm9vYmFy"), Some(b"foobar".to_vec()));
    assert_eq!(decode("-_8"), Some(vec![0xfb, 0xff]));
}

#[test]
fn decode_reads_padded_text() {
    assert_eq!(decode("Zg=="), Some(b"f".to_vec()));
    assert_eq!(decode("Zm8="), Some(b"fo".to_vec()));
    assert_eq!(decode("Zm9vYg=="), Some(b"foob".to_vec()));
    assert_eq!(decode("Zm9vYmE="), Some(b"fooba".to_vec()));
}

#[test]
fn decode_refuses_a_single_left_over_digit() {
    assert_eq!(decode("Z"), None);
    assert_eq!(decode("Zm9vY"), None);
}

#[test]
fn decode_refuses_unused_bits_that_are_set() {
    assert_eq!(decode("Zh"), None);
    assert_eq!(decode("Zm9"), None);
}

#[test]
fn decode_refuses_characters_outside_the_alphabet() {
    assert_eq!(decode("Zm+v"), None);
    assert_eq!(decode("Zm/v"), None);
    assert_eq!(decode("Zm 8"), None);
    assert_eq!(decode("Zm9v\n"), None);
    assert_eq!(decode("Zg\u{e9}"), None);
    assert_eq!(decode("\u{1f600}"), None);
}

#[test]
fn decode_refuses_misplaced_padding() {
    assert_eq!(decode("Zg="), None);
    assert_eq!(decode("Zg==="), None);
    assert_eq!(decode("Zm9v="), None);
    assert_eq!(decode("=Zg="), None);
    assert_eq!(decode("Z==="), None);
    assert_eq!(decode("===="), None);
    assert_eq!(decode("Zg=="), Some(b"f".to_vec()));
}

#[test]
fn decode_undoes_encode_for_every_length() {
    let mut bytes: Vec<u8> = Vec::new();
    for n in 0..70u32 {
        let text = encode(&bytes);
        assert_eq!(text.len(), (4 * bytes.len() + 2) / 3);
        assert_eq!(decode(&text), Some(bytes.clone()));
        bytes.push((n * 37 % 256) as u8);
    }
}

#[test]
fn decode_undoes_encode_for_every_byte_value() {
    for b in 0..=255u8 {
        assert_eq!(decode(&encode(&vec![b])), Some(vec![b]));
        assert_eq!(decode(&encode(&vec![b, b])), Some(vec![b, b]));
        assert_eq!(decode(&encode(&vec![7, b, 200])), Some(vec![7, b, 200]));
    }
}
