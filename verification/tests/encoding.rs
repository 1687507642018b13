use bookchain::derive_book_id;
use bookchain::u64_to_dec;
use bookchain::u64_to_hex;
use bookchain::Block;
use bookchain::Book;
use bookchain::BookCheckout;
use sha2::Digest;

#[test]
fn decimal_numerals() {
    assert_eq!(u64_to_dec(0), "0");
    assert_eq!(u64_to_dec(7), "7");
    assert_eq!(u64_to_dec(10), "10");
    assert_eq!(u64_to_dec(1234), "1234");
    assert_eq!(u64_to_dec(u64::MAX), "18446744073709551615");
}

#[test]
fn hexadecimal_numerals() {
    assert_eq!(u64_to_hex(0), "0");
    assert_eq!(u64_to_hex(10), "a");
    assert_eq!(u64_to_hex(255), "ff");
    assert_eq!(u64_to_hex(0xdead_beef), "deadbeef");
    assert_eq!(u64_to_hex(u64::MAX), "ffffffffffffffff");
}

#[test]
fn book_id_is_md5_of_title_and_isbn() {
    let id = derive_book_id("Book1", "123456");
    let expected = format!("{:x}", md5::compute("Book1123456"));
    assert_eq!(id, expected);

    // repeated calls with identical inputs are idempotent
    assert_eq!(derive_book_id("Book1", "123456"), id);
    assert_eq!(Book::new("Book1", "123456").id, id);
}

#[test]
fn content_hash_is_sha256_of_content() {
    let block = Block::new(3, String::from("prev"), 0, BookCheckout::new_genesis());
    let content = block.content();

    let mut hasher = sha2::Sha256::new();
    hasher.update(content.as_bytes());
    let expected = format!("{:x}", hasher.finalize());

    assert_eq!(block.hash, expected);
    assert_ne!(block.hash, content);
}

#[test]
fn content_hash_is_deterministic() {
    let block = Block::new(0, String::new(), 0, BookCheckout::new_genesis());
    let h1 = block.hash();
    let h2 = block.hash();
    assert_eq!(h1, h2);
    assert_eq!(h1, block.hash);
}

#[test]
fn difficulty_zero_accepts_first_nonce() {
    let block = Block::new(0, String::new(), 0, BookCheckout::new_genesis());
    assert_eq!(block.nonce, "0");
}

#[test]
fn mined_block_meets_difficulty() {
    let block = Block::new(
        1,
        String::from("feed"),
        2,
        BookCheckout::new_checkout("b", "u"),
    );
    assert!(block.hash.starts_with("00"));
    assert_eq!(block.hash.len(), 64);
    assert!(block.hash.chars().all(|c| c.is_ascii_hexdigit() && !c.is_uppercase()));
}

#[test]
fn validate_hash_cases() {
    assert!(Block::validate_hash("0abc", 1));
    assert!(Block::validate_hash("abc", 0));
    assert!(Block::validate_hash("", 0));
    assert!(!Block::validate_hash("abc", 1));
    assert!(!Block::validate_hash("00", 3));
    assert!(Block::validate_hash("000", 3));
}

#[test]
fn content_covers_all_fields() {
    let block = Block::new(12, String::from("ph"), 0, BookCheckout::new_checkout("bid", "usr"));
    let content = block.content();
    assert!(content.contains("12"));
    assert!(content.contains("ph"));
    assert!(content.contains("bid"));
    assert!(content.contains("usr"));
    assert!(content.contains(&block.nonce));
}
