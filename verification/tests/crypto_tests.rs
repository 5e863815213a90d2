use avicore::crypto::{crypto_hash, crypto_hmac, decimal_u8, format_digest};

#[test]
fn sha256_of_abc_as_byte_list() {
    assert_eq!(
        crypto_hash("abc", "sha256"),
        Ok(String::from(
            "[186, 120, 22, 191, 143, 1, 207, 234, 65, 65, 64, 222, 93, 174, 34, 35, 176, 3, 97, 163, 150, 23, 122, 156, 180, 16, 255, 97, 242, 0, 21, 173]"
        ))
    );
}

#[test]
fn unsupported_hash_algorithm() {
    assert_eq!(crypto_hash("abc", "md5"), Err(String::from("Unsupported hash algorithm")));
}

#[test]
fn hmac_sha256_known_vector() {
    assert_eq!(
        crypto_hmac("key", "The quick brown fox jumps over the lazy dog", "sha256"),
        Ok(String::from("f7bc83f430538424b13298e6aa6fb143ef4d59a14946175997479dbc2d1a3cd8"))
    );
}

#[test]
fn hmac_with_empty_key_succeeds() {
    let r = crypto_hmac("", "", "sha256").unwrap();
    assert_eq!(r, "b613679a0814d9ec772f95d778c35fc5ff1697c493715653c6c712144292c5ad");
}

#[test]
fn unsupported_hmac_algorithm() {
    assert_eq!(crypto_hmac("k", "m", "sha1"), Err(String::from("Unsupported HMAC algorithm")));
}

#[test]
fn digest_formatting() {
    assert_eq!(decimal_u8(0), "0");
    assert_eq!(decimal_u8(7), "7");
    assert_eq!(decimal_u8(42), "42");
    assert_eq!(decimal_u8(255), "255");
    assert_eq!(format_digest(&vec![]), "[]");
    assert_eq!(format_digest(&vec![1, 20, 255]), "[1, 20, 255]");
}
