use disc_cipher::discovery::{key_file_stem, name_contains};
use disc_cipher::error::DiscError;
use disc_cipher::key::{clean_key_text, key_validation, parse_key};

#[test]
fn thirty_two_hex_digits_validate() {
    assert!(key_validation("0123456789ABCDEF0123456789ABCDEF"));
    assert!(key_validation("0123456789abcdef0123456789abcdef"));
}

#[test]
fn thirty_one_digits_do_not_validate() {
    assert!(!key_validation("0123456789ABCDEF0123456789ABCDE"));
    assert!(!key_validation("0123456789ABCDEF0123456789ABCDEF0"));
    assert!(!key_validation(""));
}

#[test]
fn non_hex_character_does_not_validate() {
    assert!(!key_validation("0123456789ABCDEFG123456789ABCDE0"));
}

#[test]
fn whitespace_is_ignored() {
    assert!(key_validation("  0123 4567 89AB CDEF 0123 4567 89AB CDEF  "));
    assert!(key_validation("0123456789ABCDEF\t0123456789ABCDEF\r\n"));
    assert!(key_validation("0123456789ABCDEF\u{3000}0123456789ABCDEF"));
}

#[test]
fn parse_key_spells_bytes() {
    let k = parse_key(" 000102030405060708090A0B0C0D0E0f ").unwrap();
    let expected: Vec<u8> = (0..16).collect();
    assert_eq!(k.to_vec(), expected);
    assert_eq!(
        parse_key("ff ee dd cc bb aa 99 88 77 66 55 44 33 22 11 00").unwrap()[0],
        0xff
    );
}

#[test]
fn parse_key_refuses_invalid_text() {
    assert_eq!(
        parse_key("0123456789ABCDEFG123456789ABCDE0"),
        Err(DiscError::InvalidKeyFormat)
    );
    assert_eq!(parse_key("0123"), Err(DiscError::InvalidKeyFormat));
}

#[test]
fn clean_key_text_drops_control_characters() {
    assert_eq!(clean_key_text("ab\r\ncd\u{0}e\u{7f}f\u{85}"), "abcdef");
    assert_eq!(clean_key_text("a b"), "a b");
    assert_eq!(clean_key_text(""), "");
}

#[test]
fn key_file_stem_removes_markers() {
    let stem = |s: &str| key_file_stem(s).into_iter().collect::<String>();
    assert_eq!(stem("Game_decrypted.iso"), "Game.iso");
    assert_eq!(stem("Game_encrypted.iso"), "Game.iso");
    assert_eq!(stem("Game.iso"), "Game.iso");
    assert_eq!(stem("a_decrypted_encryptedb"), "ab");
    assert_eq!(stem("x__decrypteddecrypted"), "x_decrypted");
    assert_eq!(stem(""), "");
}

#[test]
fn name_contains_finds_game_identifier() {
    assert!(name_contains("Some Game (USA).dkey", "Some Game"));
    assert!(name_contains("abc", ""));
    assert!(name_contains("abc", "abc"));
    assert!(!name_contains("abc", "abcd"));
    assert!(!name_contains("Other.dkey", "Some Game"));
}
